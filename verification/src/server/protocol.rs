//! The conversations of a connection, and the streams that belong to them.
//!
//! A conversation has a slot. The slot goes through its states one way only, from
//! `Reserved` through `Authenticating`, `Upgrading` and `Active` to `Closed`. Whoever
//! reserved a conversation holds its slot, and gives it up in the end; a slot that
//! was replaced in the registry in the meantime is then left alone.

use crate::proto::codec;
use crate::proto::codec::{ChannelStreamHeader, SIGNAL_VALUE};
use crate::proto::varint;
use crate::proto::varint::decode_varint_sync;
use crate::server::error::ServerError;
use std::collections::HashMap;
use vstd::prelude::*;
use vstd::string::*;

verus! {

broadcast use vstd::std_specs::hash::group_hash_axioms;

/// The states of a conversation.
#[derive(Debug, Clone, Copy, PartialEq, Eq, Structural)]
pub enum ConversationState {
    Reserved,
    Authenticating,
    Upgrading,
    Active,
    Closed,
}

impl ConversationState {
    /// The name of the state.
    pub open spec fn name(self) -> Seq<char> {
        match self {
            ConversationState::Reserved => "Reserved"@,
            ConversationState::Authenticating => "Authenticating"@,
            ConversationState::Upgrading => "Upgrading"@,
            ConversationState::Active => "Active"@,
            ConversationState::Closed => "Closed"@,
        }
    }

    /// How far along the state is.
    pub open spec fn rank(self) -> int {
        match self {
            ConversationState::Reserved => 0,
            ConversationState::Authenticating => 1,
            ConversationState::Upgrading => 2,
            ConversationState::Active => 3,
            ConversationState::Closed => 4,
        }
    }

    /// The name of the state.
    pub fn as_str(&self) -> (r: &'static str)
        ensures
            r@ == self.name(),
    {
        match self {
            ConversationState::Reserved => "Reserved",
            ConversationState::Authenticating => "Authenticating",
            ConversationState::Upgrading => "Upgrading",
            ConversationState::Active => "Active",
            ConversationState::Closed => "Closed",
        }
    }
}

/// What is known of a slot: its state, and whether someone holds it.
#[derive(Debug, Clone, Copy, PartialEq, Eq, Structural)]
pub struct Slot {
    pub state: ConversationState,
    pub held: bool,
}

/// The slots and the registry.
#[verifier::ext_equal]
pub ghost struct ProtocolView {
    /// The slots that are held or registered, by number.
    pub slots: Map<u64, Slot>,
    /// The slot of each registered conversation.
    pub registry: Map<u64, u64>,
    /// The number of the next slot.
    pub next: u64,
}

impl ProtocolView {
    /// Every registered slot exists, none is registered twice, and the next number
    /// is not in use.
    pub open spec fn wf(self) -> bool {
        &&& forall|c: u64|
            self.registry.contains_key(c) ==> self.slots.contains_key(#[trigger] self.registry[c])
        &&& forall|c: u64, d: u64|
            self.registry.contains_key(c) && self.registry.contains_key(d) && c != d
                ==> #[trigger] self.registry[c] != #[trigger] self.registry[d]
        &&& forall|s: u64| #[trigger] self.slots.contains_key(s) ==> s < self.next
    }

    /// The state of a registered conversation.
    pub open spec fn state_of(self, conversation: u64) -> Option<ConversationState> {
        if self.registry.contains_key(conversation) {
            Some(self.slots[self.registry[conversation]].state)
        } else {
            None
        }
    }

    /// The registry without a conversation. Its slot is gone unless it is held.
    pub open spec fn without(self, conversation: u64) -> ProtocolView {
        if self.registry.contains_key(conversation) {
            let s = self.registry[conversation];
            ProtocolView {
                slots: if self.slots[s].held {
                    self.slots
                } else {
                    self.slots.remove(s)
                },
                registry: self.registry.remove(conversation),
                next: self.next,
            }
        } else {
            self
        }
    }

    /// The registry with a new slot for a conversation, in place of any other.
    pub open spec fn with_slot(self, conversation: u64, slot: Slot) -> ProtocolView {
        let rest = self.without(conversation);
        ProtocolView {
            slots: rest.slots.insert(self.next, slot),
            registry: rest.registry.insert(conversation, self.next),
            next: (self.next + 1) as u64,
        }
    }

    /// A slot in another state.
    pub open spec fn with_state(self, s: u64, state: ConversationState) -> ProtocolView {
        ProtocolView { slots: self.slots.insert(s, Slot { state, held: self.slots[s].held }), ..self }
    }

    /// The slot is given up: it is gone, and so is the conversation, where the slot
    /// is still the registered one.
    pub open spec fn released(self, conversation: u64, s: u64) -> ProtocolView {
        ProtocolView {
            slots: self.slots.remove(s),
            registry: if self.registry.contains_key(conversation) && self.registry[conversation]
                == s {
                self.registry.remove(conversation)
            } else {
                self.registry
            },
            next: self.next,
        }
    }

    /// Someone holds the slot, and it is registered for no other conversation.
    pub open spec fn holds(self, conversation: u64, s: u64) -> bool {
        &&& self.slots.contains_key(s)
        &&& self.slots[s].held
        &&& forall|c: u64|
            self.registry.contains_key(c) && #[trigger] self.registry[c] == s ==> c == conversation
    }
}

/// No slot has gone back to an earlier state.
pub open spec fn only_forward(before: ProtocolView, after: ProtocolView) -> bool {
    forall|s: u64|
        before.slots.contains_key(s) && #[trigger] after.slots.contains_key(s)
            ==> before.slots[s].state.rank() <= after.slots[s].state.rank()
}

/// Every other registered conversation keeps its slot and its state.
pub open spec fn others_untouched(before: ProtocolView, after: ProtocolView, id: u64) -> bool {
    forall|c: u64| c != id ==> #[trigger] after.state_of(c) == before.state_of(c)
}

/// The conversations of a connection.
pub struct Ssh3Protocol {
    slots: HashMap<u64, Slot>,
    registry: HashMap<u64, u64>,
    next_slot: u64,
}

impl View for Ssh3Protocol {
    type V = ProtocolView;

    closed spec fn view(&self) -> ProtocolView {
        ProtocolView { slots: self.slots@, registry: self.registry@, next: self.next_slot }
    }
}

/// A conversation that is being set up.
#[derive(Debug)]
pub struct ReservedConversation {
    conversation_id: u64,
    slot: u64,
    endpoint: bool,
}

/// A conversation that has been authenticated.
#[derive(Debug)]
pub struct ConversationLease {
    conversation_id: u64,
    slot: u64,
}

/// What becomes of a stream.
#[derive(Debug, Clone, PartialEq, Eq)]
pub enum StreamVerdict {
    /// More bytes are needed.
    NeedMore,
    /// The stream is not for this protocol.
    Passed,
    /// The stream is for this protocol, but its header is wrong: it is dropped.
    BadHeader,
    /// There is no active conversation for the stream: it is dropped.
    NoConversation { header: ChannelStreamHeader },
    /// The stream goes to a conversation; so many bytes of it are the header.
    Dispatched { slot: u64, header: ChannelStreamHeader, consumed: usize },
}

/// What becomes of a stream that starts with the given bytes. `ended` tells that the
/// stream holds no more.
pub open spec fn verdict_for(
    p: ProtocolView,
    data: Seq<u8>,
    ended: bool,
    v: StreamVerdict,
) -> bool {
    match varint::take_varint(data) {
        None => v == if ended {
            StreamVerdict::Passed
        } else {
            StreamVerdict::NeedMore
        },
        Some((signal, _)) => if signal != SIGNAL_VALUE {
            v == StreamVerdict::Passed
        } else {
            match codec::take_header(data) {
                Err(codec::ChannelHeaderDecodeError::Incomplete) => v == if ended {
                    StreamVerdict::BadHeader
                } else {
                    StreamVerdict::NeedMore
                },
                Err(_) => v == StreamVerdict::BadHeader,
                Ok((fields, rest)) => if p.state_of(fields.conversation_id) == Some(
                    ConversationState::Active,
                ) {
                    &&& v matches StreamVerdict::Dispatched { slot, header, consumed }
                    &&& slot == p.registry[fields.conversation_id]
                    &&& header@ == fields
                    &&& consumed == data.len() - rest.len()
                } else {
                    v matches StreamVerdict::NoConversation { header } && header@ == fields
                },
            }
        },
    }
}

impl Ssh3Protocol {
    /// A connection without conversations.
    pub fn new() -> (r: Self)
        ensures
            r@.slots == Map::<u64, Slot>::empty(),
            r@.registry == Map::<u64, u64>::empty(),
            r@.next == 0,
            r@.wf(),
    {
        Ssh3Protocol { slots: HashMap::new(), registry: HashMap::new(), next_slot: 0 }
    }

    /// Whether no conversation is registered.
    pub fn is_empty(&self) -> (r: bool)
        ensures
            r == (self@.registry.dom() =~= Set::<u64>::empty()),
    {
        let r = self.registry.len() == 0;
        proof {
            let dom = self.registry@.dom();
            if r {
                assert(dom.len() == 0);
                assert(dom =~= Set::<u64>::empty());
            } else if dom =~= Set::<u64>::empty() {
                assert(dom.len() == 0);
            }
        }
        r
    }

    /// The state of a registered conversation.
    pub fn state(&self, id: u64) -> (r: Option<ConversationState>)
        requires
            self@.wf(),
        ensures
            r == self@.state_of(id),
    {
        match self.registry.get(&id) {
            None => None,
            Some(s) => match self.slots.get(s) {
                Some(slot) => Some(slot.state),
                None => None,
            },
        }
    }

    /// Removes a conversation from the registry, and its slot where nobody holds it.
    fn forget(&mut self, id: u64)
        requires
            old(self)@.wf(),
        ensures
            final(self)@ == old(self)@.without(id),
            final(self)@.wf(),
    {
        if let Some(s) = self.registry.remove(&id) {
            let held: bool = match self.slots.get(&s) {
                Some(slot) => slot.held,
                None => true,
            };
            if !held {
                self.slots.remove(&s);
            }
        } else {
            assert(self.registry@ =~= old(self).registry@);
        }
        assert(self@ =~= old(self)@.without(id));
    }

    /// Registers a new slot for a conversation, in place of any other, and gives its
    /// number.
    fn insert_slot(&mut self, id: u64, slot: Slot) -> (r: Result<u64, ServerError>)
        requires
            old(self)@.wf(),
        ensures
            final(self)@.wf(),
            match r {
                Ok(s) => {
                    &&& old(self)@.next < u64::MAX
                    &&& s == old(self)@.next
                    &&& final(self)@ == old(self)@.with_slot(id, slot)
                },
                Err(e) => {
                    &&& old(self)@.next == u64::MAX
                    &&& e == ServerError::SlotsExhausted
                    &&& final(self)@ == old(self)@
                },
            },
    {
        if self.next_slot == u64::MAX {
            return Err(ServerError::SlotsExhausted);
        }
        self.forget(id);
        let s: u64 = self.next_slot;
        self.next_slot = s + 1;
        self.slots.insert(s, slot);
        self.registry.insert(id, s);
        assert(self@ =~= old(self)@.with_slot(id, slot));
        Ok(s)
    }

    /// Registers a conversation, active at once. Its streams arrive at the slot whose
    /// number is given. An earlier registration is replaced.
    pub fn register_conversation(&mut self, id: u64) -> (r: Result<u64, ServerError>)
        requires
            old(self)@.wf(),
        ensures
            final(self)@.wf(),
            only_forward(old(self)@, final(self)@),
            others_untouched(old(self)@, final(self)@, id),
            match r {
                Ok(s) => {
                    &&& old(self)@.next < u64::MAX
                    &&& s == old(self)@.next
                    &&& final(self)@ == old(self)@.with_slot(
                        id,
                        (Slot { state: ConversationState::Active, held: false }),
                    )
                },
                Err(e) => {
                    &&& old(self)@.next == u64::MAX
                    &&& e == ServerError::SlotsExhausted
                    &&& final(self)@ == old(self)@
                },
            },
    {
        self.insert_slot(id, Slot { state: ConversationState::Active, held: false })
    }

    /// Removes a conversation from the registry.
    pub fn unregister_conversation(&mut self, id: u64)
        requires
            old(self)@.wf(),
        ensures
            final(self)@.wf(),
            final(self)@ == old(self)@.without(id),
            final(self)@.state_of(id) is None,
            only_forward(old(self)@, final(self)@),
            others_untouched(old(self)@, final(self)@, id),
    {
        self.forget(id);
    }

    /// Reserves a conversation. An earlier registration is replaced.
    pub fn reserve_conversation(&mut self, stream_id: u64) -> (r: Result<
        ReservedConversation,
        ServerError,
    >)
        requires
            old(self)@.wf(),
        ensures
            final(self)@.wf(),
            only_forward(old(self)@, final(self)@),
            others_untouched(old(self)@, final(self)@, stream_id),
            match r {
                Ok(reserved) => {
                    &&& old(self)@.next < u64::MAX
                    &&& reserved.id() == stream_id
                    &&& reserved.slot_number() == old(self)@.next
                    &&& reserved.has_endpoint()
                    &&& final(self)@ == old(self)@.with_slot(
                        stream_id,
                        (Slot { state: ConversationState::Reserved, held: true }),
                    )
                    &&& final(self)@.holds(stream_id, reserved.slot_number())
                },
                Err(e) => {
                    &&& old(self)@.next == u64::MAX
                    &&& e == ServerError::SlotsExhausted
                    &&& final(self)@ == old(self)@
                },
            },
    {
        match self.insert_slot(stream_id, Slot { state: ConversationState::Reserved, held: true }) {
            Ok(s) => Ok(
                ReservedConversation { conversation_id: stream_id, slot: s, endpoint: true },
            ),
            Err(e) => Err(e),
        }
    }

    /// Reserves a conversation and hands out what its streams arrive at.
    pub fn create_transport(&mut self, stream_id: u64) -> (r: Result<
        ReservedConversation,
        ServerError,
    >)
        requires
            old(self)@.wf(),
        ensures
            final(self)@.wf(),
            only_forward(old(self)@, final(self)@),
            others_untouched(old(self)@, final(self)@, stream_id),
            match r {
                Ok(reserved) => {
                    &&& old(self)@.next < u64::MAX
                    &&& reserved.id() == stream_id
                    &&& reserved.slot_number() == old(self)@.next
                    &&& !reserved.has_endpoint()
                    &&& final(self)@ == old(self)@.with_slot(
                        stream_id,
                        (Slot { state: ConversationState::Reserved, held: true }),
                    )
                    &&& final(self)@.holds(stream_id, reserved.slot_number())
                },
                Err(e) => {
                    &&& old(self)@.next == u64::MAX
                    &&& e == ServerError::SlotsExhausted
                    &&& final(self)@ == old(self)@
                },
            },
    {
        let mut reserved = match self.reserve_conversation(stream_id) {
            Ok(reserved) => reserved,
            Err(e) => return Err(e),
        };
        match reserved.transport_server(self) {
            Ok(()) => Ok(reserved),
            Err(e) => Err(e),
        }
    }

    /// Decides on a stream that starts with the given bytes. Only an active
    /// conversation gets streams.
    pub fn accept_bi(&self, data: &[u8], ended: bool) -> (r: StreamVerdict)
        requires
            self@.wf(),
        ensures
            verdict_for(self@, data@, ended, r),
    {
        let signal: u64 = match decode_varint_sync(data) {
            Some((signal, _)) => signal.into_inner(),
            None => return if ended {
                StreamVerdict::Passed
            } else {
                StreamVerdict::NeedMore
            },
        };
        if signal != SIGNAL_VALUE as u64 {
            return StreamVerdict::Passed;
        }
        let (header, consumed): (ChannelStreamHeader, usize) =
            match ChannelStreamHeader::decode_from_slice(data) {
            Ok(found) => found,
            Err(codec::ChannelHeaderDecodeError::Incomplete) => return if ended {
                StreamVerdict::BadHeader
            } else {
                StreamVerdict::NeedMore
            },
            Err(_) => return StreamVerdict::BadHeader,
        };
        let id: u64 = header.conversation_id.into_inner();
        match self.registry.get(&id) {
            None => StreamVerdict::NoConversation { header },
            Some(s) => match self.slots.get(s) {
                Some(slot) => if slot.state == ConversationState::Active {
                    StreamVerdict::Dispatched { slot: *s, header, consumed }
                } else {
                    StreamVerdict::NoConversation { header }
                },
                None => StreamVerdict::NoConversation { header },
            },
        }
    }

    /// Moves a slot from one state to a later one.
    fn transition(&mut self, s: u64, from: ConversationState, to: ConversationState) -> (r: Result<
        (),
        ServerError,
    >)
        requires
            old(self)@.wf(),
            old(self)@.slots.contains_key(s),
            from.rank() < to.rank(),
        ensures
            final(self)@.wf(),
            only_forward(old(self)@, final(self)@),
            match r {
                Ok(()) => {
                    &&& old(self)@.slots[s].state == from
                    &&& final(self)@ == old(self)@.with_state(s, to)
                },
                Err(e) => {
                    &&& old(self)@.slots[s].state != from
                    &&& e == (ServerError::InvalidConversationSlotState {
                        state: old(self)@.slots[s].state,
                    })
                    &&& final(self)@ == old(self)@
                },
            },
    {
        let slot: Slot = match self.slots.get(&s) {
            Some(slot) => *slot,
            None => Slot { state: to, held: false },
        };
        if slot.state != from {
            return Err(ServerError::InvalidConversationSlotState { state: slot.state });
        }
        self.slots.insert(s, Slot { state: to, held: slot.held });
        assert(self@ =~= old(self)@.with_state(s, to));
        Ok(())
    }

    /// Gives a slot up.
    fn release_slot(&mut self, id: u64, s: u64)
        requires
            old(self)@.wf(),
            old(self)@.holds(id, s),
        ensures
            final(self)@ == old(self)@.released(id, s),
            final(self)@.wf(),
            only_forward(old(self)@, final(self)@),
            others_untouched(old(self)@, final(self)@, id),
    {
        let registered: bool = match self.registry.get(&id) {
            Some(t) => *t == s,
            None => false,
        };
        if registered {
            self.registry.remove(&id);
        }
        self.slots.remove(&s);
        assert(self@ =~= old(self)@.released(id, s));
    }
}

/// Makes the conversations of each new connection.
#[derive(Debug, Clone, Copy, PartialEq, Eq, Structural)]
pub struct Ssh3ProtocolFactory;

impl Ssh3ProtocolFactory {
    /// The conversations of a connection that has just been made.
    pub fn init(&self) -> (r: Ssh3Protocol)
        ensures
            r@.slots == Map::<u64, Slot>::empty(),
            r@.registry == Map::<u64, u64>::empty(),
            r@.next == 0,
            r@.wf(),
    {
        Ssh3Protocol::new()
    }
}

impl ReservedConversation {
    /// The conversation.
    pub closed spec fn id(&self) -> u64 {
        self.conversation_id
    }

    /// The number of its slot.
    pub closed spec fn slot_number(&self) -> u64 {
        self.slot
    }

    /// What its streams arrive at has not been handed out.
    pub closed spec fn has_endpoint(&self) -> bool {
        self.endpoint
    }

    /// The conversation.
    pub fn conversation_id(&self) -> (r: u64)
        ensures
            r == self.id(),
    {
        self.conversation_id
    }

    /// The number of its slot.
    pub fn slot(&self) -> (r: u64)
        ensures
            r == self.slot_number(),
    {
        self.slot
    }

    /// Notes that the client is being authenticated.
    pub fn transition_to_authenticating(&self, protocol: &mut Ssh3Protocol) -> (r: Result<
        (),
        ServerError,
    >)
        requires
            old(protocol)@.wf(),
            old(protocol)@.holds(self.id(), self.slot_number()),
        ensures
            final(protocol)@.wf(),
            final(protocol)@.holds(self.id(), self.slot_number()),
            only_forward(old(protocol)@, final(protocol)@),
            others_untouched(old(protocol)@, final(protocol)@, self.id()),
            match r {
                Ok(()) => {
                    &&& old(protocol)@.slots[self.slot_number()].state
                        == ConversationState::Reserved
                    &&& final(protocol)@ == old(protocol)@.with_state(
                        self.slot_number(),
                        ConversationState::Authenticating,
                    )
                },
                Err(e) => {
                    &&& old(protocol)@.slots[self.slot_number()].state
                        != ConversationState::Reserved
                    &&& e == (ServerError::InvalidConversationSlotState {
                        state: old(protocol)@.slots[self.slot_number()].state,
                    })
                    &&& final(protocol)@ == old(protocol)@
                },
            },
    {
        protocol.transition(
            self.slot,
            ConversationState::Reserved,
            ConversationState::Authenticating,
        )
    }

    /// Hands out what the conversation's streams arrive at, for the transport to
    /// serve. It can be handed out once, before the conversation is upgraded.
    pub fn transport_server(&mut self, protocol: &Ssh3Protocol) -> (r: Result<(), ServerError>)
        requires
            protocol@.wf(),
            protocol@.holds(old(self).id(), old(self).slot_number()),
        ensures
            final(self).id() == old(self).id(),
            final(self).slot_number() == old(self).slot_number(),
            ({
                let state = protocol@.slots[old(self).slot_number()].state;
                if state != ConversationState::Reserved && state
                    != ConversationState::Authenticating {
                    &&& r == Err::<(), ServerError>(
                        ServerError::InvalidConversationState {
                            conversation_id: old(self).id(),
                            state,
                        },
                    )
                    &&& final(self).has_endpoint() == old(self).has_endpoint()
                } else if !old(self).has_endpoint() {
                    &&& r == Err::<(), ServerError>(
                        ServerError::ConsumedConversationEndpoint {
                            conversation_id: old(self).id(),
                        },
                    )
                    &&& !final(self).has_endpoint()
                } else {
                    r == Ok::<(), ServerError>(()) && !final(self).has_endpoint()
                }
            }),
    {
        let state: ConversationState = match protocol.slots.get(&self.slot) {
            Some(slot) => slot.state,
            None => ConversationState::Closed,
        };
        if state != ConversationState::Reserved && state != ConversationState::Authenticating {
            return Err(
                ServerError::InvalidConversationState {
                    conversation_id: self.conversation_id,
                    state,
                },
            );
        }
        if !self.endpoint {
            return Err(
                ServerError::ConsumedConversationEndpoint { conversation_id: self.conversation_id },
            );
        }
        self.endpoint = false;
        Ok(())
    }

    /// Turns the reservation of an authenticated client into a lease. Where the
    /// conversation is in another state, the reservation is given up.
    pub fn consume_into_lease(self, protocol: &mut Ssh3Protocol) -> (r: Result<
        ConversationLease,
        ServerError,
    >)
        requires
            old(protocol)@.wf(),
            old(protocol)@.holds(self.id(), self.slot_number()),
        ensures
            final(protocol)@.wf(),
            only_forward(old(protocol)@, final(protocol)@),
            others_untouched(old(protocol)@, final(protocol)@, self.id()),
            ({
                let state = old(protocol)@.slots[self.slot_number()].state;
                match r {
                    Ok(lease) => {
                        &&& state == ConversationState::Authenticating
                        &&& lease.id() == self.id()
                        &&& lease.slot_number() == self.slot_number()
                        &&& final(protocol)@ == old(protocol)@.with_state(
                            self.slot_number(),
                            ConversationState::Upgrading,
                        )
                        &&& final(protocol)@.holds(self.id(), self.slot_number())
                    },
                    Err(e) => {
                        &&& state != ConversationState::Authenticating
                        &&& e == (ServerError::InvalidConversationSlotState { state })
                        &&& final(protocol)@ == old(protocol)@.released(
                            self.id(),
                            self.slot_number(),
                        )
                    },
                }
            }),
    {
        match protocol.transition(
            self.slot,
            ConversationState::Authenticating,
            ConversationState::Upgrading,
        ) {
            Ok(()) => Ok(
                ConversationLease { conversation_id: self.conversation_id, slot: self.slot },
            ),
            Err(e) => {
                protocol.release_slot(self.conversation_id, self.slot);
                Err(e)
            },
        }
    }

    /// Turns the reservation of an authenticated client into a lease and hands out
    /// what its streams arrive at. Where the conversation is in another state, or that was
    /// handed out before, the reservation is given up.
    pub fn handoff_to_supervisor(self, protocol: &mut Ssh3Protocol) -> (r: Result<
        ConversationLease,
        ServerError,
    >)
        requires
            old(protocol)@.wf(),
            old(protocol)@.holds(self.id(), self.slot_number()),
        ensures
            final(protocol)@.wf(),
            only_forward(old(protocol)@, final(protocol)@),
            others_untouched(old(protocol)@, final(protocol)@, self.id()),
            ({
                let state = old(protocol)@.slots[self.slot_number()].state;
                match r {
                    Ok(lease) => {
                        &&& state == ConversationState::Authenticating
                        &&& self.has_endpoint()
                        &&& lease.id() == self.id()
                        &&& lease.slot_number() == self.slot_number()
                        &&& final(protocol)@ == old(protocol)@.with_state(
                            self.slot_number(),
                            ConversationState::Upgrading,
                        )
                        &&& final(protocol)@.holds(self.id(), self.slot_number())
                    },
                    Err(e) => {
                        &&& final(protocol)@ == old(protocol)@.released(
                            self.id(),
                            self.slot_number(),
                        )
                        &&& if state != ConversationState::Authenticating {
                            e == (ServerError::InvalidConversationSlotState { state })
                        } else {
                            &&& !self.has_endpoint()
                            &&& e == (ServerError::ConsumedConversationEndpoint {
                                conversation_id: self.id(),
                            })
                        }
                    },
                }
            }),
    {
        let endpoint: bool = self.endpoint;
        let id: u64 = self.conversation_id;
        let ghost s = self.slot;
        let lease = match self.consume_into_lease(protocol) {
            Ok(lease) => lease,
            Err(e) => return Err(e),
        };
        if endpoint {
            Ok(lease)
        } else {
            lease.release(protocol);
            assert(protocol@ =~= old(protocol)@.released(id, s));
            Err(ServerError::ConsumedConversationEndpoint { conversation_id: id })
        }
    }

    /// Gives the reservation up.
    pub fn release(self, protocol: &mut Ssh3Protocol)
        requires
            old(protocol)@.wf(),
            old(protocol)@.holds(self.id(), self.slot_number()),
        ensures
            final(protocol)@.wf(),
            final(protocol)@ == old(protocol)@.released(self.id(), self.slot_number()),
            only_forward(old(protocol)@, final(protocol)@),
            others_untouched(old(protocol)@, final(protocol)@, self.id()),
    {
        protocol.release_slot(self.conversation_id, self.slot);
    }
}

impl ConversationLease {
    /// The conversation.
    pub closed spec fn id(&self) -> u64 {
        self.conversation_id
    }

    /// The number of its slot.
    pub closed spec fn slot_number(&self) -> u64 {
        self.slot
    }

    /// The conversation.
    pub fn conversation_id(&self) -> (r: u64)
        ensures
            r == self.id(),
    {
        self.conversation_id
    }

    /// The number of its slot.
    pub fn slot(&self) -> (r: u64)
        ensures
            r == self.slot_number(),
    {
        self.slot
    }

    /// Notes that the conversation is active.
    pub fn transition_to_active(&self, protocol: &mut Ssh3Protocol) -> (r: Result<(), ServerError>)
        requires
            old(protocol)@.wf(),
            old(protocol)@.holds(self.id(), self.slot_number()),
        ensures
            final(protocol)@.wf(),
            final(protocol)@.holds(self.id(), self.slot_number()),
            only_forward(old(protocol)@, final(protocol)@),
            others_untouched(old(protocol)@, final(protocol)@, self.id()),
            match r {
                Ok(()) => {
                    &&& old(protocol)@.slots[self.slot_number()].state
                        == ConversationState::Upgrading
                    &&& final(protocol)@ == old(protocol)@.with_state(
                        self.slot_number(),
                        ConversationState::Active,
                    )
                },
                Err(e) => {
                    &&& old(protocol)@.slots[self.slot_number()].state
                        != ConversationState::Upgrading
                    &&& e == (ServerError::InvalidConversationSlotState {
                        state: old(protocol)@.slots[self.slot_number()].state,
                    })
                    &&& final(protocol)@ == old(protocol)@
                },
            },
    {
        protocol.transition(self.slot, ConversationState::Upgrading, ConversationState::Active)
    }

    /// Gives the conversation up.
    pub fn release(self, protocol: &mut Ssh3Protocol)
        requires
            old(protocol)@.wf(),
            old(protocol)@.holds(self.id(), self.slot_number()),
        ensures
            final(protocol)@.wf(),
            final(protocol)@ == old(protocol)@.released(self.id(), self.slot_number()),
            only_forward(old(protocol)@, final(protocol)@),
            others_untouched(old(protocol)@, final(protocol)@, self.id()),
    {
        protocol.release_slot(self.conversation_id, self.slot);
    }
}

} // verus!
