//! Channels over one stream: a request opens a channel on both sides, and what is sent on it
//! reaches the receiver of the other.

use crate::proto::mux;
use crate::proto::mux::{
    ChannelError, Item, Message, Mux, MuxContext, NewChannel, ReceiveError, Received, Role, Sender,
    Step, TaskAction, TaskEvent, Token,
};
use vstd::prelude::*;

verus! {

/// A token tells its role and its number: twice the number, and one more for the client.
pub proof fn law_token_parts(
    role: Role,
    n: u64,
    t: Token,
    role_of: Role,
    number: u64,
    inner: u64,
    next: Token,
    next_role: Role,
    next_number: u64,
)
    requires
        n < 0x7fff_ffff_ffff_ffff,
        call_ensures(Token::new, (role, n), t),
        call_ensures(Token::role, (&t,), role_of),
        call_ensures(Token::seq, (&t,), number),
        call_ensures(Token::into_inner, (t,), inner),
        call_ensures(Token::next, (&t,), next),
        call_ensures(Token::role, (&next,), next_role),
        call_ensures(Token::seq, (&next,), next_number),
    ensures
        role_of == role,
        number == n,
        role == Role::Client ==> inner == 2 * n + 1,
        role == Role::Server ==> inner == 2 * n,
        next_role == role,
        next_number == n + 1,
{
}

/// A side begins without channels, and its first channel has the number one for the client
/// and zero for the server.
pub proof fn law_first_channel<R>(
    role: Role,
    new: Mux,
    t: Token,
    at_first: Option<u64>,
    m: &mut Mux,
    request: R,
    receiver: u64,
    r: Result<(Token, Message<R>), ChannelError>,
    inner: u64,
)
    requires
        call_ensures(Mux::new, (role,), new),
        call_ensures(Mux::receiver_of, (&new, t), at_first),
        *m == new,
        call_ensures(Mux::request::<R>, (m, request, receiver), r),
        r is Ok,
        call_ensures(Token::into_inner, (r->Ok_0.0,), inner),
    ensures
        at_first is None,
        role == Role::Client ==> inner == 1,
        role == Role::Server ==> inner == 0,
{
}

/// A side that has sent fewer requests than there are tokens can send one more, and no two
/// of them share a token.
pub proof fn law_requests_differ<R>(
    first: &mut Mux,
    request: R,
    receiver: u64,
    r: Result<(Token, Message<R>), ChannelError>,
    second: &mut Mux,
    again: R,
    other: u64,
    q: Result<(Token, Message<R>), ChannelError>,
    a: u64,
    b: u64,
)
    requires
        old(first)@.fresh(),
        old(first)@.next <= 0xffff_ffff_ffff_fffd,
        call_ensures(Mux::request::<R>, (first, request, receiver), r),
        *second == *final(first),
        call_ensures(Mux::request::<R>, (second, again, other), q),
        call_ensures(Token::into_inner, (r->Ok_0.0,), a),
        call_ensures(Token::into_inner, (q->Ok_0.0,), b),
    ensures
        r is Ok && q is Ok,
        b == a + 2,
{
}

/// After the last token comes the first again, and one that is still open is told.
pub proof fn law_tokens_start_again<R>(
    m: &mut Mux,
    request: R,
    receiver: u64,
    r: Result<(Token, Message<R>), ChannelError>,
    later: &mut Mux,
    again: R,
    other: u64,
    q: Result<(Token, Message<R>), ChannelError>,
    first: Token,
    a: u64,
    b: u64,
    open: Option<u64>,
)
    requires
        call_ensures(Mux::request::<R>, (m, request, receiver), r),
        r is Ok,
        call_ensures(Token::into_inner, (r->Ok_0.0,), a),
        a >= 0xffff_ffff_ffff_fffe,
        call_ensures(Token::into_inner, (first,), b),
        b == a - 0xffff_ffff_ffff_fffe,
        *later == *final(m),
        call_ensures(Mux::receiver_of, (&*final(m), first), open),
        call_ensures(Mux::request::<R>, (later, again, other), q),
    ensures
        open is None ==> (q matches Ok((token, message)) && token.value() == b && message == (
        Message::Request { token, request: again })),
        open is Some ==> (q matches Err(ChannelError::ChannelAlreadyOpen { token }) && token.value()
            == b),
{
}

/// A request that one side sends opens the channel with its token on the other, with that
/// request and the receiver that is given for it, and on both sides the channel is then
/// known by its receiver.
pub proof fn law_request_opens_channel<R>(
    mine: &mut Mux,
    request: R,
    my_receiver: u64,
    token: Token,
    message: Message<R>,
    here: Option<u64>,
    peer: &mut Mux,
    receiver: u64,
    before: Option<u64>,
    r: Result<Received<R>, ChannelError>,
    there: Option<u64>,
    sender_token: Token,
)
    requires
        old(mine)@.role() != old(peer)@.role(),
        call_ensures(Mux::request::<R>, (mine, request, my_receiver), Ok((token, message))),
        call_ensures(Mux::receiver_of, (&*final(mine), token), here),
        call_ensures(Mux::receiver_of, (&*old(peer), token), before),
        before is None,
        call_ensures(Mux::receive::<R>, (peer, message, receiver), r),
        call_ensures(Mux::receiver_of, (&*final(peer), token), there),
        call_ensures(Sender::token, (&r->Ok_0->Opened_0.sender,), sender_token),
    ensures
        message == (Message::Request { token, request }),
        here == Some(my_receiver),
        r matches Ok(Received::Opened(channel)) && channel.token == token && channel.request
            == request && channel.receiver == receiver,
        sender_token == token,
        there == Some(receiver),
{
    if r is Ok {
        assert(r->Ok_0 is Opened);
    }
}

/// What is sent on a channel reaches its receiver as it was sent, as long as the channel is
/// open: data, an error, or the end.
pub proof fn law_sent_reaches_receiver<R>(
    sender: &Sender,
    token: Token,
    m: &mut Mux,
    receiver: Option<u64>,
    unused: u64,
    data: Vec<u8>,
    sent: Message<R>,
    r: Result<Received<R>, ChannelError>,
    m2: &mut Mux,
    error: String,
    cancelled: Message<R>,
    r2: Result<Received<R>, ChannelError>,
    m3: &mut Mux,
    closed: Message<R>,
    r3: Result<Received<R>, ChannelError>,
)
    requires
        call_ensures(Sender::token, (sender,), token),
        call_ensures(Mux::receiver_of, (&*old(m), token), receiver),
        *m2 == *m && *m3 == *m,
        data@.len() > 0,
        call_ensures(Sender::data::<R>, (sender, data), sent),
        call_ensures(Mux::receive::<R>, (m, sent, unused), r),
        call_ensures(Sender::cancel::<R>, (sender, error), cancelled),
        call_ensures(Mux::receive::<R>, (m2, cancelled, unused), r2),
        call_ensures(Sender::close::<R>, (sender,), closed),
        call_ensures(Mux::receive::<R>, (m3, closed, unused), r3),
    ensures
        receiver matches Some(n) ==> {
            &&& r == Ok::<_, ChannelError>(
                Received::<R>::Forward { token, receiver: n, item: Ok(data), keep: false },
            )
            &&& r2 == Ok::<_, ChannelError>(
                Received::<R>::Forward { token, receiver: n, item: Err(error), keep: true },
            )
            &&& r3 matches Ok(Received::Forward { token: t, receiver: k, item: Ok(d), keep })
            &&& t == token && k == n && d@.len() == 0 && keep
        },
        receiver is None ==> r == Ok::<_, ChannelError>(Received::<R>::Ignored) && r2 == r && r3
            == r,
        final(m)@ == old(m)@ && final(m2)@ == old(m2)@ && final(m3)@ == old(m3)@,
{
}

/// A request with a token of this side, or of a channel that is open, is refused, and
/// changes nothing.
pub proof fn law_bad_request_refused<R>(
    m: &mut Mux,
    token: Token,
    request: R,
    receiver: u64,
    open: Option<u64>,
    r: Result<Received<R>, ChannelError>,
)
    requires
        call_ensures(Mux::receiver_of, (&*old(m), token), open),
        call_ensures(
            Mux::receive::<R>,
            (m, Message::Request { token, request }, receiver),
            r,
        ),
    ensures
        r is Err <==> token.of_role() == old(m)@.role() || open is Some,
        token.of_role() == old(m)@.role() ==> r == Err::<Received<R>, ChannelError>(
            ChannelError::SameRole { token },
        ),
        token.of_role() != old(m)@.role() && open is Some ==> r == Err::<Received<R>, ChannelError>(
            ChannelError::ChannelAlreadyOpen { token },
        ),
        r is Err ==> final(m)@ == old(m)@,
{
}

/// A sign of life and data of no bytes lead to nothing.
pub proof fn law_nothing_to_forward<R>(
    m: &mut Mux,
    receiver: u64,
    r: Result<Received<R>, ChannelError>,
    m2: &mut Mux,
    token: Token,
    data: Vec<u8>,
    r2: Result<Received<R>, ChannelError>,
)
    requires
        call_ensures(Mux::receive::<R>, (m, Message::Heartbeat, receiver), r),
        data@.len() == 0,
        call_ensures(Mux::receive::<R>, (m2, Message::Data { token, data }, receiver), r2),
    ensures
        r == Ok::<_, ChannelError>(Received::<R>::Ignored),
        r2 == Ok::<_, ChannelError>(Received::<R>::Ignored),
        final(m)@ == old(m)@ && final(m2)@ == old(m2)@,
{
}

/// A channel that was forgotten is not open, and every other is as before; once a side was
/// closed, none is.
pub proof fn law_channels_forgotten(
    m: &mut Mux,
    token: Token,
    done: (),
    other: Token,
    before: Option<u64>,
    after: Option<u64>,
    closed: &mut Mux,
    all_done: (),
    left: Option<u64>,
)
    requires
        call_ensures(Mux::receiver_of, (&*old(m), other), before),
        call_ensures(Mux::forget, (m, token), done),
        call_ensures(Mux::receiver_of, (&*final(m), other), after),
        call_ensures(Mux::close, (closed,), all_done),
        call_ensures(Mux::receiver_of, (&*final(closed), other), left),
    ensures
        after == if other.value() == token.value() {
            None
        } else {
            before
        },
        left is None,
{
}

/// A request leaves the other channels as they were, and so does one that is received.
pub proof fn law_other_channels_kept<R>(
    m: &mut Mux,
    request: R,
    receiver: u64,
    r: Result<(Token, Message<R>), ChannelError>,
    m2: &mut Mux,
    message: Message<R>,
    r2: Result<Received<R>, ChannelError>,
    t: Token,
    before: Option<u64>,
    after: Option<u64>,
    before2: Option<u64>,
    after2: Option<u64>,
)
    requires
        call_ensures(Mux::receiver_of, (&*old(m), t), before),
        call_ensures(Mux::request::<R>, (m, request, receiver), r),
        call_ensures(Mux::receiver_of, (&*final(m), t), after),
        call_ensures(Mux::receiver_of, (&*old(m2), t), before2),
        call_ensures(Mux::receive::<R>, (m2, message, receiver), r2),
        call_ensures(Mux::receiver_of, (&*final(m2), t), after2),
    ensures
        before is Some ==> after == before,
        before2 is Some ==> after2 == before2,
{
}

/// A channel that is passed on is asked for at the other peer with what it was asked for
/// with.
pub proof fn law_channel_passed_on<R>(
    c: NewChannel<R>,
    slave: &mut Mux,
    receiver: u64,
    r: Result<(Token, Message<R>), ChannelError>,
    there: Option<u64>,
)
    requires
        call_ensures(NewChannel::<R>::relay, (c, slave, receiver), r),
        r is Ok,
        call_ensures(Mux::receiver_of, (&*final(slave), r->Ok_0.0), there),
    ensures
        r matches Ok((token, message)) && message == (Message::Request {
            token,
            request: c.request,
        }),
        there == Some(receiver),
{
}

/// Opening a channel succeeds exactly where its message was sent.
pub proof fn law_opened_once_sent(
    token: Token,
    sent: bool,
    r: Result<(Token, Sender), ChannelError>,
    t: Token,
)
    requires
        call_ensures(Mux::requested, (token, sent), r),
        call_ensures(Sender::token, (&r->Ok_0.1,), t),
    ensures
        r is Ok <==> sent,
        sent ==> r->Ok_0.0 == token && t == token,
        !sent ==> r == Err::<(Token, Sender), ChannelError>(ChannelError::SendRequest { token }),
{
}

/// The receiving goes on over every message that can be taken in, and ends with the first
/// that cannot, and with the first error of the stream, which is then told.
pub proof fn law_receiving_goes_on<R, E>(
    m: &mut Mux,
    message: Message<R>,
    receiver: u64,
    taken: Result<Received<R>, ChannelError>,
    m2: &mut Mux,
    r: Step<R, E>,
    m3: &mut Mux,
    source: E,
    failed: Step<R, E>,
)
    requires
        *m2 == *m,
        call_ensures(Mux::receive::<R>, (m, message, receiver), taken),
        call_ensures(mux::receive_item::<R, E>, (m2, Ok(message), receiver), r),
        call_ensures(mux::receive_item::<R, E>, (m3, Err(source), receiver), failed),
    ensures
        taken is Ok <==> r is Continue,
        taken matches Err(e) ==> r == Step::<R, E>::Stop(ReceiveError::AcceptChannel { source: e }),
        final(m2)@ == final(m)@,
        failed == Step::<R, E>::Stop(ReceiveError::StreamClosed { source }),
        final(m3)@ == old(m3)@,
{
}

/// What waits is sent, a heartbeat is put behind it, and both go on only while the task
/// runs.
pub proof fn law_waiting_is_sent<R, E>(
    c: &mut MuxContext,
    message: Message<R>,
    receiver: u64,
    r: TaskAction<R, E>,
    c2: &mut MuxContext,
    r2: TaskAction<R, E>,
)
    requires
        call_ensures(MuxContext::advance::<R, E>, (c, TaskEvent::Waiting(message), receiver), r),
        call_ensures(MuxContext::advance::<R, E>, (c2, TaskEvent::HeartbeatDue, receiver), r2),
    ensures
        r == if old(c)@.running {
            TaskAction::<R, E>::Send(message)
        } else {
            TaskAction::<R, E>::Nothing
        },
        r2 == if old(c2)@.running {
            TaskAction::<R, E>::Queue(Message::Heartbeat)
        } else {
            TaskAction::<R, E>::Nothing
        },
        final(c)@ == old(c)@ && final(c2)@ == old(c2)@,
{
}

/// The task ends with the stream, with the last sender, with a message that cannot be sent
/// and when it is told to; what then still waits is sent. Afterwards it does nothing.
pub proof fn law_task_ends<R, E>(
    c: &mut MuxContext,
    event: TaskEvent<R, E>,
    receiver: u64,
    r: TaskAction<R, E>,
    late: &mut MuxContext,
    any: TaskEvent<R, E>,
    after: TaskAction<R, E>,
)
    requires
        old(c)@.running,
        event is Ended || event is NoSenders || event is SendFailed || event is Shutdown || (
        event matches TaskEvent::Item(i) && i is Err),
        call_ensures(MuxContext::advance::<R, E>, (c, event, receiver), r),
        *late == *final(c),
        call_ensures(MuxContext::advance::<R, E>, (late, any, receiver), after),
    ensures
        event is Ended || event is NoSenders || event is SendFailed ==> r is Close,
        event matches TaskEvent::Shutdown(waiting) ==> r == TaskAction::<R, E>::Flush(waiting),
        event matches TaskEvent::Item(Err(e)) ==> r == TaskAction::<R, E>::Report(
            ReceiveError::StreamClosed { source: e },
        ),
        after is Nothing,
        final(c)@.mux == old(c)@.mux,
{
}

/// A message that comes in while the task runs is acted on, unless it cannot be taken in:
/// then that is told, and the task ends.
pub proof fn law_message_acted_on<R, E>(
    new: MuxContext,
    role: Role,
    c: &mut MuxContext,
    message: Message<R>,
    receiver: u64,
    r: TaskAction<R, E>,
)
    requires
        call_ensures(MuxContext::new, (role,), new),
        old(c)@.running,
        call_ensures(MuxContext::advance::<R, E>, (c, TaskEvent::Item(Ok(message)), receiver), r),
    ensures
        new@.running && new@.mux.role() == role,
        r is Deliver || r is Report,
        final(c)@.running <==> r is Deliver,
        message is Heartbeat ==> r == TaskAction::<R, E>::Deliver(Received::Ignored),
        message matches Message::Request { token, request } ==> token.of_role() != old(
            c,
        )@.mux.role() ==> !old(c)@.mux.channels.contains_key(token.value()) ==> (
        r matches TaskAction::Deliver(Received::Opened(channel)) && channel.request == request
            && channel.receiver == receiver && channel.token == token),
{
}

/// A receiver takes everything as it comes, up to empty data, which is the end.
pub proof fn law_item_taken(item: Item, r: Option<Item>)
    requires
        call_ensures(mux::next_item, (item,), r),
    ensures
        item is Err ==> r == Some(item),
        item matches Ok(d) && d@.len() > 0 ==> r == Some(item),
        item matches Ok(d) && d@.len() == 0 ==> r is None,
{
}

/// The sending end of a channel is that of its token, and a token is told by its number.
pub proof fn law_sender_of_token(t: Token, s: Sender, u: Token, n: u64, digits: String, r: String)
    requires
        call_ensures(Sender::new, (t,), s),
        call_ensures(Sender::token, (&s,), u),
        call_ensures(Token::into_inner, (t,), n),
        call_ensures(crate::text::decimal_string, (n,), digits),
        call_ensures(Token::to_string, (&t,), r),
    ensures
        u == t,
        r@ == digits@,
{
}

/// A channel that cannot be closed is told as such.
pub proof fn law_close_failed(s: &Sender, token: Token, r: ChannelError)
    requires
        call_ensures(Sender::token, (s,), token),
        call_ensures(Sender::close_failed, (s,), r),
    ensures
        r == (ChannelError::SendClose { token }),
{
}

} // verus!
