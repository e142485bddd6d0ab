//! Many channels over one stream of messages.
//!
//! Each side numbers the channels that it opens with tokens of its own role, so that
//! the two never open the same one.

use crate::outside;
use crate::outside::{dash_clear, dash_get, dash_insert, dash_new, dash_remove};
use crate::text;
use crate::text::{decimal_string, join2, join3};
use vstd::prelude::*;
use vstd::string::*;

verus! {

/// Which side of the stream it is.
#[derive(Debug, Clone, Copy, PartialEq, Eq, Hash, Structural)]
pub enum Role {
    Client,
    Server,
}

impl Role {
    /// The last bit of the tokens of a role.
    pub open spec fn bit(self) -> int {
        match self {
            Role::Client => 1,
            Role::Server => 0,
        }
    }

    /// The name of the role.
    pub open spec fn name(self) -> Seq<char> {
        match self {
            Role::Client => "Client"@,
            Role::Server => "Server"@,
        }
    }

    /// The role as text.
    pub fn to_string(&self) -> (r: String)
        ensures
            r@ == self.name(),
    {
        match self {
            Role::Client => "Client".to_owned(),
            Role::Server => "Server".to_owned(),
        }
    }
}

/// The number of a channel.
#[derive(Debug, Clone, Copy, PartialEq, Eq, Hash, Structural)]
pub struct Token(u64);

impl Token {
    /// The number.
    pub closed spec fn value(self) -> u64 {
        self.0
    }

    /// The role whose tokens have the last bit of this one.
    pub open spec fn of_role(self) -> Role {
        if self.value() % 2 == 0 {
            Role::Server
        } else {
            Role::Client
        }
    }

    /// The token of a role with a sequence number. The topmost bit of the sequence
    /// number is lost.
    pub fn new(role: Role, seq: u64) -> (r: Self)
        ensures
            r.value() == (seq % 0x8000_0000_0000_0000) * 2 + role.bit(),
    {
        let kept: u64 = seq % 0x8000_0000_0000_0000;
        match role {
            Role::Client => Token(kept * 2 + 1),
            Role::Server => Token(kept * 2),
        }
    }

    /// The sequence number.
    pub fn seq(&self) -> (r: u64)
        ensures
            r == self.value() / 2,
    {
        self.0 / 2
    }

    /// The role.
    pub fn role(&self) -> (r: Role)
        ensures
            r == self.of_role(),
    {
        if self.0 % 2 == 0 {
            Role::Server
        } else {
            Role::Client
        }
    }

    /// The number.
    pub fn into_inner(self) -> (r: u64)
        ensures
            r == self.value(),
    {
        self.0
    }

    /// The next token of the same role.
    pub fn next(&self) -> (r: Self)
        requires
            self.value() <= 0xffff_ffff_ffff_fffd,
        ensures
            r.value() == self.value() + 2,
            r.of_role() == self.of_role(),
            r.value() / 2 == self.value() / 2 + 1,
    {
        Token(self.0 + 2)
    }

    /// The number as text.
    pub fn to_string(&self) -> (r: String)
        ensures
            r@ == text::decimal(self.value() as nat),
    {
        decimal_string(self.0)
    }
}

/// A token is made of its role and its sequence number, and gives them back.
pub proof fn lemma_token_parts(t: Token, role: Role, seq: u64)
    requires
        seq < 0x8000_0000_0000_0000,
    ensures
        t.value() == seq * 2 + role.bit() <==> t.of_role() == role && t.value() / 2 == seq,
{
}

/// Why a channel could not be opened or closed.
#[derive(Debug, Clone, Copy, PartialEq, Eq, Structural)]
pub enum ChannelError {
    SameRole { token: Token },
    ChannelAlreadyOpen { token: Token },
    ChannelClosed { token: Token },
    SendRequest { token: Token },
    SendClose { token: Token },
}

impl ChannelError {
    /// The text of the error.
    pub open spec fn message(self) -> Seq<char> {
        match self {
            ChannelError::SameRole { token } => {
                "Peer has the same role with local when routing for "@ + text::decimal(
                    token.value() as nat,
                )
            },
            ChannelError::ChannelAlreadyOpen { token } => "Channel "@ + text::decimal(
                token.value() as nat,
            ) + " already be opened"@,
            ChannelError::ChannelClosed { token } => "Channel "@ + text::decimal(
                token.value() as nat,
            ) + " already be closed"@,
            ChannelError::SendRequest { token } => "Failed to send request message for "@
                + text::decimal(token.value() as nat),
            ChannelError::SendClose { token } => "Failed to send close message for "@
                + text::decimal(token.value() as nat),
        }
    }

    /// The error as text.
    pub fn to_string(&self) -> (r: String)
        ensures
            r@ == self.message(),
    {
        match self {
            ChannelError::SameRole { token } => join2(
                "Peer has the same role with local when routing for ",
                token.to_string().as_str(),
            ),
            ChannelError::ChannelAlreadyOpen { token } => join3(
                "Channel ",
                token.to_string().as_str(),
                " already be opened",
            ),
            ChannelError::ChannelClosed { token } => join3(
                "Channel ",
                token.to_string().as_str(),
                " already be closed",
            ),
            ChannelError::SendRequest { token } => join2(
                "Failed to send request message for ",
                token.to_string().as_str(),
            ),
            ChannelError::SendClose { token } => join2(
                "Failed to send close message for ",
                token.to_string().as_str(),
            ),
        }
    }
}

/// Why messages are no longer received.
#[derive(Debug)]
pub enum ReceiveError<E> {
    /// A channel could not be accepted.
    AcceptChannel { source: ChannelError },
    /// The stream of messages failed.
    StreamClosed { source: E },
}

impl<E> ReceiveError<E> {
    /// The text of the error.
    pub open spec fn message(self) -> Seq<char> {
        match self {
            ReceiveError::AcceptChannel { source } => "Accept channel failed"@,
            ReceiveError::StreamClosed { source } => "Message stream closed"@,
        }
    }

    /// The error as text.
    pub fn to_string(&self) -> (r: String)
        ensures
            r@ == self.message(),
    {
        match self {
            ReceiveError::AcceptChannel { source: _ } => "Accept channel failed".to_owned(),
            ReceiveError::StreamClosed { source: _ } => "Message stream closed".to_owned(),
        }
    }
}

/// A message on the stream.
#[derive(Debug, Clone, PartialEq, Eq)]
pub enum Message<R> {
    /// A channel is to be opened.
    Request { token: Token, request: R },
    /// Something was sent on a channel.
    Data { token: Token, data: Vec<u8> },
    /// Something went wrong on a channel.
    Error { token: Token, error: String },
    /// A channel is closed.
    Close { token: Token },
    /// The peer is alive.
    Heartbeat,
}

/// Every so many seconds a heartbeat is sent.
pub const HEARTBEAT_SECS: u64 = 5;

/// What a receiver is handed: data, or an error. Empty data is the end.
pub type Item = Result<Vec<u8>, String>;

/// A channel that has been opened for the peer.
#[derive(Debug, PartialEq, Eq)]
pub struct NewChannel<R> {
    /// Its token.
    pub token: Token,
    /// What the peer asks for.
    pub request: R,
    /// The end on which to send.
    pub sender: Sender,
    /// The number of the end on which to receive.
    pub receiver: u64,
}

impl<R> NewChannel<R> {
    /// The channel with this token, request and receiver.
    pub open spec fn made_of(self, token: Token, request: R, receiver: u64) -> bool {
        &&& self.token == token
        &&& self.request == request
        &&& self.sender.spec_token() == token
        &&& self.receiver == receiver
    }

    /// Asks another peer for what the peer asks for: the two channels are then to be
    /// relayed to each other. The channel to the other peer gets the receiver with the
    /// given number.
    pub fn relay(self, slave: &mut Mux, receiver: u64) -> (r: Result<
        (Token, Message<R>),
        ChannelError,
    >)
        ensures
            requests(old(slave)@, self.request, receiver, final(slave)@, r),
    {
        slave.request(self.request, receiver)
    }
}

/// What a received message leads to.
#[derive(Debug, PartialEq, Eq)]
pub enum Received<R> {
    /// Nothing.
    Ignored,
    /// A channel has been opened for the peer.
    Opened(NewChannel<R>),
    /// An item is to be handed to the receiver with this number. Where that fails and
    /// the channel is not to be kept, `forget` is to be called.
    Forward { token: Token, receiver: u64, item: Item, keep: bool },
}

/// The channels that are open, and the token of the next one.
#[verifier::ext_equal]
pub ghost struct MuxView {
    pub next: u64,
    pub channels: Map<u64, u64>,
}

impl MuxView {
    /// The role of this side.
    pub open spec fn role(self) -> Role {
        if self.next % 2 == 0 {
            Role::Server
        } else {
            Role::Client
        }
    }

    /// Every open channel that this side has opened is older than the next token.
    pub open spec fn fresh(self) -> bool {
        forall|t: u64| #[trigger]
            self.channels.contains_key(t) && t % 2 == self.next % 2 ==> t < self.next
    }
}

/// The state and the outcome of a received message, where the receiver of a new
/// channel has the given number.
pub open spec fn receives<R>(
    before: MuxView,
    message: Message<R>,
    receiver: u64,
    after: MuxView,
    r: Result<Received<R>, ChannelError>,
) -> bool {
    let open = before.channels;
    match message {
        Message::Request { token, request } => if token.of_role() == before.role() {
            r == Err::<Received<R>, _>(ChannelError::SameRole { token }) && after == before
        } else if open.contains_key(token.value()) {
            r == Err::<Received<R>, _>(ChannelError::ChannelAlreadyOpen { token }) && after
                == before
        } else {
            &&& r matches Ok(Received::Opened(channel))
            &&& channel.made_of(token, request, receiver)
            &&& after == (MuxView { channels: open.insert(token.value(), receiver), ..before })
        },
        Message::Data { token, data } => after == before && if data@.len() > 0
            && open.contains_key(token.value()) {
            r == Ok::<_, ChannelError>(
                Received::<R>::Forward {
                    token,
                    receiver: open[token.value()],
                    item: Ok(data),
                    keep: false,
                },
            )
        } else {
            r == Ok::<_, ChannelError>(Received::<R>::Ignored)
        },
        Message::Error { token, error } => after == before && if open.contains_key(token.value()) {
            r == Ok::<_, ChannelError>(
                Received::<R>::Forward {
                    token,
                    receiver: open[token.value()],
                    item: Err(error),
                    keep: true,
                },
            )
        } else {
            r == Ok::<_, ChannelError>(Received::<R>::Ignored)
        },
        Message::Close { token } => after == before && if open.contains_key(token.value()) {
            &&& r matches Ok(Received::Forward { token: t, receiver: n, item: Ok(data), keep })
            &&& t == token
            &&& n == open[token.value()]
            &&& data@.len() == 0
            &&& keep
        } else {
            r == Ok::<_, ChannelError>(Received::<R>::Ignored)
        },
        Message::Heartbeat => after == before && r == Ok::<_, ChannelError>(
            Received::<R>::Ignored,
        ),
    }
}

/// The state and the outcome of a request that is to be sent to the peer. Before the
/// tokens start again, it never fails.
pub open spec fn requests<R>(
    before: MuxView,
    request: R,
    receiver: u64,
    after: MuxView,
    r: Result<(Token, Message<R>), ChannelError>,
) -> bool {
    let started_again = before.next > 0xffff_ffff_ffff_fffd;
    &&& after.next == if started_again {
        before.next + 2 - 0x1_0000_0000_0000_0000
    } else {
        before.next + 2
    }
    &&& after.role() == before.role()
    &&& before.fresh() && !started_again ==> r is Ok && after.fresh()
    &&& match r {
        Ok((token, message)) => {
            &&& token.value() == before.next
            &&& token.of_role() == before.role()
            &&& message == (Message::Request { token, request })
            &&& !before.channels.contains_key(token.value())
            &&& after.channels == before.channels.insert(token.value(), receiver)
        },
        Err(e) => {
            &&& e matches ChannelError::ChannelAlreadyOpen { token }
            &&& token.value() == before.next
            &&& before.channels.contains_key(token.value())
            &&& after.channels == before.channels
        },
    }
}

/// One side of the stream.
pub struct Mux {
    token_gen: u64,
    channels: dashmap::DashMap<u64, u64>,
}

impl View for Mux {
    type V = MuxView;

    closed spec fn view(&self) -> MuxView {
        MuxView { next: self.token_gen, channels: outside::dash_contents(self.channels) }
    }
}

impl Mux {
    /// One side, with no channels.
    pub fn new(role: Role) -> (r: Self)
        ensures
            r@.next == role.bit(),
            r@.role() == role,
            r@.channels == Map::<u64, u64>::empty(),
            r@.fresh(),
    {
        let r = Mux { token_gen: Token::new(role, 0).into_inner(), channels: dash_new() };
        assert(r@.channels =~= Map::<u64, u64>::empty());
        r
    }

    /// The number of the receiver of a channel, where it is open.
    pub fn receiver_of(&self, token: Token) -> (r: Option<u64>)
        ensures
            r == if self@.channels.contains_key(token.value()) {
                Some(self@.channels[token.value()])
            } else {
                None
            },
    {
        dash_get(&self.channels, token.into_inner())
    }

    /// Takes a message in. A channel that it opens gets the receiver with the given
    /// number.
    pub fn receive<R>(&mut self, message: Message<R>, receiver: u64) -> (r: Result<
        Received<R>,
        ChannelError,
    >)
        ensures
            receives(old(self)@, message, receiver, final(self)@, r),
            old(self)@.fresh() ==> final(self)@.fresh(),
            final(self)@.role() == old(self)@.role(),
    {
        match message {
            Message::Request { token, request } => {
                if token.role() == Token(self.token_gen).role() {
                    return Err(ChannelError::SameRole { token });
                }
                match dash_get(&self.channels, token.into_inner()) {
                    Some(_) => Err(ChannelError::ChannelAlreadyOpen { token }),
                    None => {
                        dash_insert(&mut self.channels, token.into_inner(), receiver);
                        Ok(
                            Received::Opened(
                                NewChannel { token, request, sender: Sender::new(token), receiver },
                            ),
                        )
                    },
                }
            },
            Message::Data { token, data } => {
                if data.len() == 0 {
                    return Ok(Received::Ignored);
                }
                match dash_get(&self.channels, token.into_inner()) {
                    Some(receiver) => Ok(
                        Received::Forward { token, receiver, item: Ok(data), keep: false },
                    ),
                    None => Ok(Received::Ignored),
                }
            },
            Message::Error { token, error } => match dash_get(&self.channels, token.into_inner()) {
                Some(receiver) => Ok(
                    Received::Forward { token, receiver, item: Err(error), keep: true },
                ),
                None => Ok(Received::Ignored),
            },
            Message::Close { token } => match dash_get(&self.channels, token.into_inner()) {
                Some(receiver) => Ok(
                    Received::Forward { token, receiver, item: Ok(Vec::new()), keep: true },
                ),
                None => Ok(Received::Ignored),
            },
            Message::Heartbeat => Ok(Received::Ignored),
        }
    }

    /// Opens a channel to the peer: its token, and the message that asks for it. The
    /// channel gets the receiver with the given number. The tokens start again at the
    /// first one after the last.
    pub fn request<R>(&mut self, request: R, receiver: u64) -> (r: Result<
        (Token, Message<R>),
        ChannelError,
    >)
        ensures
            requests(old(self)@, request, receiver, final(self)@, r),
    {
        let token = Token(self.token_gen);
        self.token_gen = self.token_gen.wrapping_add(2);
        match dash_get(&self.channels, token.into_inner()) {
            Some(_) => {
                assert(old(self)@.channels.contains_key(token.value()));
                Err(ChannelError::ChannelAlreadyOpen { token })
            },
            None => {
                dash_insert(&mut self.channels, token.into_inner(), receiver);
                proof {
                    assert forall|t: u64|
                        #[trigger] self@.channels.contains_key(t) && t % 2 == self@.next % 2
                            && old(self)@.fresh() && old(self)@.next
                            <= 0xffff_ffff_ffff_fffd implies t < self@.next by {
                        assert(t == token.value() || old(self)@.channels.contains_key(t));
                    }
                }
                Ok((token, Message::Request { token, request }))
            },
        }
    }

    /// What opening a channel comes to, once its message was sent or could not be. The
    /// channel stays among the open ones either way.
    pub fn requested(token: Token, sent: bool) -> (r: Result<(Token, Sender), ChannelError>)
        ensures
            match r {
                Ok((t, sender)) => sent && t == token && sender.spec_token() == token,
                Err(e) => !sent && e == (ChannelError::SendRequest { token }),
            },
    {
        if sent {
            Ok((token, Sender::new(token)))
        } else {
            Err(ChannelError::SendRequest { token })
        }
    }

    /// Forgets a channel: its receiver is gone.
    pub fn forget(&mut self, token: Token)
        ensures
            final(self)@ == (MuxView {
                channels: old(self)@.channels.remove(token.value()),
                ..old(self)@
            }),
            old(self)@.fresh() ==> final(self)@.fresh(),
    {
        dash_remove(&mut self.channels, token.into_inner());
        proof {
            assert forall|t: u64|
                #[trigger] self@.channels.contains_key(t) && t % 2 == self@.next % 2 && old(
                    self,
                )@.fresh() implies t < self@.next by {
                assert(old(self)@.channels.contains_key(t));
            }
        }
    }

    /// Forgets every channel.
    pub fn close(&mut self)
        ensures
            final(self)@ == (MuxView { channels: Map::empty(), ..old(self)@ }),
    {
        dash_clear(&mut self.channels);
        assert(self@.channels =~= Map::<u64, u64>::empty());
    }
}

/// What to do with an item of the stream of messages.
#[derive(Debug)]
pub enum Step<R, E> {
    /// Go on; the item led to this.
    Continue(Received<R>),
    /// Report this error and receive no more.
    Stop(ReceiveError<E>),
}

/// Takes an item of the stream of messages in. The first that cannot be accepted, and
/// the first error of the stream, end the receiving.
pub fn receive_item<R, E>(mux: &mut Mux, item: Result<Message<R>, E>, receiver: u64) -> (r: Step<R, E>)
    ensures
        old(mux)@.fresh() ==> final(mux)@.fresh(),
        match item {
            Err(source) => final(mux)@ == old(mux)@ && r == Step::<R, E>::Stop(
                ReceiveError::StreamClosed { source },
            ),
            Ok(message) => match r {
                Step::Continue(received) => receives(
                    old(mux)@,
                    message,
                    receiver,
                    final(mux)@,
                    Ok(received),
                ),
                Step::Stop(ReceiveError::AcceptChannel { source }) => receives(
                    old(mux)@,
                    message,
                    receiver,
                    final(mux)@,
                    Err(source),
                ),
                Step::Stop(ReceiveError::StreamClosed { .. }) => false,
            },
        },
{
    match item {
        Err(source) => Step::Stop(ReceiveError::StreamClosed { source }),
        Ok(message) => match mux.receive(message, receiver) {
            Ok(received) => Step::Continue(received),
            Err(source) => Step::Stop(ReceiveError::AcceptChannel { source }),
        },
    }
}

/// What happens to the task that keeps a stream going.
#[derive(Debug)]
pub enum TaskEvent<R, E> {
    /// An item came in on the stream of messages.
    Item(Result<Message<R>, E>),
    /// The stream of messages has ended.
    Ended,
    /// A message waits to be sent.
    Waiting(Message<R>),
    /// Nobody is left who could send a message.
    NoSenders,
    /// A message could not be sent.
    SendFailed,
    /// A heartbeat is due.
    HeartbeatDue,
    /// The task is to end; these messages still wait to be sent.
    Shutdown(Vec<Message<R>>),
}

/// What the task that keeps a stream going is to do.
#[derive(Debug)]
pub enum TaskAction<R, E> {
    /// Nothing: it has ended.
    Nothing,
    /// Act on a received message.
    Deliver(Received<R>),
    /// Report the error to whoever accepts channels, then close the sink.
    Report(ReceiveError<E>),
    /// Send the message.
    Send(Message<R>),
    /// Put the message behind those that wait to be sent.
    Queue(Message<R>),
    /// Send the messages in turn, whether or not that works, then close the sink.
    Flush(Vec<Message<R>>),
    /// Close the sink.
    Close,
}

impl<R, E> TaskAction<R, E> {
    /// Whether the sink is closed once this is done.
    pub open spec fn closes(self) -> bool {
        self is Report || self is Flush || self is Close
    }
}

/// One side of the stream, and whether the task that keeps it going still runs.
#[verifier::ext_equal]
pub ghost struct ContextView {
    pub mux: MuxView,
    pub running: bool,
}

/// The state and the action that follow an event, where the receiver of a new channel
/// has the given number.
pub open spec fn task_steps<R, E>(
    before: ContextView,
    event: TaskEvent<R, E>,
    receiver: u64,
    after: ContextView,
    action: TaskAction<R, E>,
) -> bool {
    if !before.running {
        after == before && action == TaskAction::<R, E>::Nothing
    } else {
        match event {
            TaskEvent::Item(Ok(message)) => match action {
                TaskAction::Deliver(received) => after.running && receives(
                    before.mux,
                    message,
                    receiver,
                    after.mux,
                    Ok(received),
                ),
                TaskAction::Report(ReceiveError::AcceptChannel { source }) => !after.running
                    && receives(before.mux, message, receiver, after.mux, Err(source)),
                _ => false,
            },
            TaskEvent::Item(Err(source)) => after == (ContextView { running: false, ..before })
                && action == TaskAction::<R, E>::Report(ReceiveError::StreamClosed { source }),
            TaskEvent::Ended | TaskEvent::NoSenders | TaskEvent::SendFailed => after == (
            ContextView { running: false, ..before }) && action == TaskAction::<R, E>::Close,
            TaskEvent::Waiting(message) => after == before && action == TaskAction::<R, E>::Send(
                message,
            ),
            TaskEvent::HeartbeatDue => after == before && action == TaskAction::<R, E>::Queue(
                Message::Heartbeat,
            ),
            TaskEvent::Shutdown(waiting) => after == (ContextView { running: false, ..before })
                && action == TaskAction::<R, E>::Flush(waiting),
        }
    }
}

/// One side of the stream with the task that keeps it going.
pub struct MuxContext {
    inner: Mux,
    running: bool,
}

impl View for MuxContext {
    type V = ContextView;

    closed spec fn view(&self) -> ContextView {
        ContextView { mux: self.inner@, running: self.running }
    }
}

impl MuxContext {
    /// One side, with no channels, and its task, which runs.
    pub fn new(role: Role) -> (r: Self)
        ensures
            r@.mux.next == role.bit(),
            r@.mux.role() == role,
            r@.mux.channels == Map::<u64, u64>::empty(),
            r@.mux.fresh(),
            r@.running,
    {
        MuxContext { inner: Mux::new(role), running: true }
    }

    /// The side of the stream.
    pub fn mux(&mut self) -> (r: &mut Mux)
        ensures
            r@ == old(self)@.mux,
            final(self)@ == (ContextView { mux: final(r)@, ..old(self)@ }),
    {
        &mut self.inner
    }

    /// What the task does on an event. A channel that is opened by it gets the receiver
    /// with the given number.
    pub fn advance<R, E>(&mut self, event: TaskEvent<R, E>, receiver: u64) -> (r: TaskAction<R, E>)
        ensures
            task_steps(old(self)@, event, receiver, final(self)@, r),
            old(self)@.mux.fresh() ==> final(self)@.mux.fresh(),
    {
        if !self.running {
            return TaskAction::Nothing;
        }
        match event {
            TaskEvent::Item(item) => match receive_item(&mut self.inner, item, receiver) {
                Step::Continue(received) => TaskAction::Deliver(received),
                Step::Stop(error) => {
                    self.running = false;
                    TaskAction::Report(error)
                },
            },
            TaskEvent::Ended | TaskEvent::NoSenders | TaskEvent::SendFailed => {
                self.running = false;
                TaskAction::Close
            },
            TaskEvent::Waiting(message) => TaskAction::Send(message),
            TaskEvent::HeartbeatDue => TaskAction::Queue(Message::Heartbeat),
            TaskEvent::Shutdown(waiting) => {
                self.running = false;
                TaskAction::Flush(waiting)
            },
        }
    }
}

/// The sink is closed when the task ends, and only then; a task that has ended does
/// nothing more.
pub proof fn lemma_sink_closed_once<R, E>(
    before: ContextView,
    event: TaskEvent<R, E>,
    receiver: u64,
    after: ContextView,
    action: TaskAction<R, E>,
)
    requires
        task_steps(before, event, receiver, after, action),
    ensures
        action.closes() <==> before.running && !after.running,
        !before.running ==> action is Nothing && !after.running,
{
}

/// What a receiver makes of an item: nothing more comes after empty data.
pub fn next_item(item: Item) -> (r: Option<Item>)
    ensures
        match r {
            Some(i) => i == item && !(item matches Ok(data) && data@.len() == 0),
            None => item matches Ok(data) && data@.len() == 0,
        },
{
    match item {
        Ok(data) => if data.len() == 0 {
            None
        } else {
            Some(Ok(data))
        },
        Err(error) => Some(Err(error)),
    }
}

/// The sending end of a channel.
#[derive(Debug, Clone, Copy, PartialEq, Eq, Structural)]
pub struct Sender {
    token: Token,
}

impl Sender {
    /// The channel.
    pub closed spec fn spec_token(self) -> Token {
        self.token
    }

    /// The sending end of a channel.
    pub fn new(token: Token) -> (r: Self)
        ensures
            r.spec_token() == token,
    {
        Sender { token }
    }

    /// The channel.
    pub fn token(&self) -> (r: Token)
        ensures
            r == self.spec_token(),
    {
        self.token
    }

    /// The message that sends data on the channel.
    pub fn data<R>(&self, data: Vec<u8>) -> (r: Message<R>)
        ensures
            r == (Message::<R>::Data { token: self.spec_token(), data }),
    {
        Message::Data { token: self.token, data }
    }

    /// The message that reports an error on the channel.
    pub fn cancel<R>(&self, error: String) -> (r: Message<R>)
        ensures
            r == (Message::<R>::Error { token: self.spec_token(), error }),
    {
        Message::Error { token: self.token, error }
    }

    /// The message that closes the channel.
    pub fn close<R>(&self) -> (r: Message<R>)
        ensures
            r == (Message::<R>::Close { token: self.spec_token() }),
    {
        Message::Close { token: self.token }
    }

    /// The error where a message that ends the channel could not be sent.
    pub fn close_failed(&self) -> (r: ChannelError)
        ensures
            r == (ChannelError::SendClose { token: self.spec_token() }),
    {
        ChannelError::SendClose { token: self.token }
    }
}

/// A request that one side sends opens a channel on the other, and what either then
/// sends on it is handed to the receiver of the other.
pub proof fn lemma_request_reaches_peer<R>(
    mine: MuxView,
    my_receiver: u64,
    request: R,
    asked: MuxView,
    token: Token,
    message: Message<R>,
    peer: MuxView,
    receiver: u64,
    opened: MuxView,
    r: Result<Received<R>, ChannelError>,
    there: Vec<u8>,
    peer_end: MuxView,
    d: Result<Received<R>, ChannelError>,
    back: Vec<u8>,
    my_end: MuxView,
    b: Result<Received<R>, ChannelError>,
)
    requires
        mine.role() != peer.role(),
        requests(mine, request, my_receiver, asked, Ok((token, message))),
        !peer.channels.contains_key(token.value()),
        receives(peer, message, receiver, opened, r),
        there@.len() > 0,
        receives(opened, Message::<R>::Data { token, data: there }, receiver, peer_end, d),
        back@.len() > 0,
        receives(asked, Message::<R>::Data { token, data: back }, my_receiver, my_end, b),
    ensures
        r matches Ok(Received::Opened(channel)) && channel.made_of(token, request, receiver),
        d == Ok::<_, ChannelError>(
            Received::<R>::Forward { token, receiver, item: Ok(there), keep: false },
        ),
        b == Ok::<_, ChannelError>(
            Received::<R>::Forward { token, receiver: my_receiver, item: Ok(back), keep: false },
        ),
{
}

/// The channels that the two sides open are never the same.
pub proof fn lemma_roles_disjoint(a: Token, b: Token)
    requires
        a.of_role() != b.of_role(),
    ensures
        a.value() != b.value(),
{
}

} // verus!
