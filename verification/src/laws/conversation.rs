//! The conversations of a connection: who is known, how far each has come, and what an
//! accepted request leads to.

use crate::server::error::ServerError;
use crate::server::handler::{
    AcceptedConnect, AuthOutcome, ConnectAction, ConnectEvent, Ssh3ConnectHandler,
};
use crate::server::protocol::{
    ConversationLease, ConversationState, ReservedConversation, Ssh3Protocol, Ssh3ProtocolFactory,
};
use vstd::prelude::*;

verus! {

/// A connection begins without conversations.
pub proof fn law_none_at_first(
    p: Ssh3Protocol,
    f: &Ssh3ProtocolFactory,
    q: Ssh3Protocol,
    id: u64,
    a: Option<ConversationState>,
    b: Option<ConversationState>,
    empty: bool,
)
    requires
        call_ensures(Ssh3Protocol::new, (), p),
        call_ensures(Ssh3ProtocolFactory::init, (f,), q),
        call_ensures(Ssh3Protocol::state, (&p, id), a),
        call_ensures(Ssh3Protocol::state, (&q, id), b),
        call_ensures(Ssh3Protocol::is_empty, (&p,), empty),
    ensures
        a is None && b is None && empty,
{
    assert(p@.registry.dom() =~= Set::<u64>::empty());
}

/// A conversation that was registered is active, and no other has changed. What was
/// registered before is replaced.
pub proof fn law_registered(
    p: &mut Ssh3Protocol,
    id: u64,
    other: u64,
    r: Result<u64, ServerError>,
    before: Option<ConversationState>,
    after: Option<ConversationState>,
    empty: bool,
)
    requires
        old(p)@.wf(),
        call_ensures(Ssh3Protocol::register_conversation, (p, id), r),
        call_ensures(Ssh3Protocol::state, (&*old(p), other), before),
        call_ensures(Ssh3Protocol::state, (&*final(p), other), after),
        call_ensures(Ssh3Protocol::is_empty, (&*final(p),), empty),
    ensures
        r is Ok ==> after == if other == id {
            Some(ConversationState::Active)
        } else {
            before
        } && !empty,
        r is Err ==> after == before,
{
    if r is Ok {
        assert(final(p)@.registry.dom().contains(id));
    }
}

/// Two registrations never share a slot.
pub proof fn law_slots_are_new(
    first: &mut Ssh3Protocol,
    a: u64,
    r: Result<u64, ServerError>,
    second: &mut Ssh3Protocol,
    b: u64,
    q: Result<u64, ServerError>,
)
    requires
        call_ensures(Ssh3Protocol::register_conversation, (first, a), r),
        *second == *final(first),
        call_ensures(Ssh3Protocol::register_conversation, (second, b), q),
        r is Ok && q is Ok,
    ensures
        r->Ok_0 != q->Ok_0,
{
}

/// A conversation that was unregistered is not known, and no other has changed.
pub proof fn law_unregistered(
    p: &mut Ssh3Protocol,
    id: u64,
    other: u64,
    r: (),
    before: Option<ConversationState>,
    after: Option<ConversationState>,
)
    requires
        call_ensures(Ssh3Protocol::unregister_conversation, (p, id), r),
        call_ensures(Ssh3Protocol::state, (&*old(p), other), before),
        call_ensures(Ssh3Protocol::state, (&*final(p), other), after),
    ensures
        after == if other == id {
            None
        } else {
            before
        },
{
}

/// A conversation is set up in four steps, each of which succeeds after the one before it:
/// reserved, being authenticated, being upgraded, active.
pub proof fn law_set_up(
    p1: &mut Ssh3Protocol,
    id: u64,
    reserved: Result<ReservedConversation, ServerError>,
    s1: Option<ConversationState>,
    p2: &mut Ssh3Protocol,
    authenticating: Result<(), ServerError>,
    s2: Option<ConversationState>,
    p3: &mut Ssh3Protocol,
    lease: Result<ConversationLease, ServerError>,
    s3: Option<ConversationState>,
    p4: &mut Ssh3Protocol,
    active: Result<(), ServerError>,
    s4: Option<ConversationState>,
    p5: &mut Ssh3Protocol,
    released: (),
    s5: Option<ConversationState>,
    c: u64,
    d: u64,
)
    requires
        old(p1)@.wf(),
        call_ensures(Ssh3Protocol::reserve_conversation, (p1, id), reserved),
        reserved is Ok,
        call_ensures(Ssh3Protocol::state, (&*final(p1), id), s1),
        call_ensures(ReservedConversation::conversation_id, (&reserved->Ok_0,), c),
        *p2 == *final(p1),
        call_ensures(
            ReservedConversation::transition_to_authenticating,
            (&reserved->Ok_0, p2),
            authenticating,
        ),
        call_ensures(Ssh3Protocol::state, (&*final(p2), id), s2),
        *p3 == *final(p2),
        call_ensures(ReservedConversation::handoff_to_supervisor, (reserved->Ok_0, p3), lease),
        call_ensures(Ssh3Protocol::state, (&*final(p3), id), s3),
        *p4 == *final(p3),
        call_ensures(ConversationLease::transition_to_active, (&lease->Ok_0, p4), active),
        call_ensures(Ssh3Protocol::state, (&*final(p4), id), s4),
        call_ensures(ConversationLease::conversation_id, (&lease->Ok_0,), d),
        *p5 == *final(p4),
        call_ensures(ConversationLease::release, (lease->Ok_0, p5), released),
        call_ensures(Ssh3Protocol::state, (&*final(p5), id), s5),
    ensures
        s1 == Some(ConversationState::Reserved),
        authenticating is Ok && s2 == Some(ConversationState::Authenticating),
        lease is Ok && s3 == Some(ConversationState::Upgrading),
        active is Ok && s4 == Some(ConversationState::Active),
        s5 is None,
        c == id && d == id,
{
}

/// A reservation that is given up leaves nothing, and no other conversation has changed.
pub proof fn law_reservation_given_up(
    p1: &mut Ssh3Protocol,
    id: u64,
    reserved: Result<ReservedConversation, ServerError>,
    p2: &mut Ssh3Protocol,
    released: (),
    other: u64,
    before: Option<ConversationState>,
    after: Option<ConversationState>,
)
    requires
        old(p1)@.wf(),
        call_ensures(Ssh3Protocol::state, (&*old(p1), other), before),
        call_ensures(Ssh3Protocol::reserve_conversation, (p1, id), reserved),
        reserved is Ok,
        *p2 == *final(p1),
        call_ensures(ReservedConversation::release, (reserved->Ok_0, p2), released),
        call_ensures(Ssh3Protocol::state, (&*final(p2), other), after),
    ensures
        after == if other == id {
            None
        } else {
            before
        },
{
    assert(final(p2)@.state_of(other) == p2@.state_of(other) || other == id);
}

/// No step can be left out: a conversation that is only reserved is not upgraded, and one
/// that is being authenticated is not authenticated again.
pub proof fn law_no_step_left_out(
    p1: &mut Ssh3Protocol,
    id: u64,
    reserved: Result<ReservedConversation, ServerError>,
    early: &mut Ssh3Protocol,
    lease: Result<ConversationLease, ServerError>,
    p2: &mut Ssh3Protocol,
    authenticating: Result<(), ServerError>,
    p3: &mut Ssh3Protocol,
    again: Result<(), ServerError>,
)
    requires
        old(p1)@.wf(),
        call_ensures(Ssh3Protocol::reserve_conversation, (p1, id), reserved),
        reserved is Ok,
        *early == *final(p1),
        call_ensures(ReservedConversation::consume_into_lease, (reserved->Ok_0, early), lease),
        *p2 == *final(p1),
        call_ensures(
            ReservedConversation::transition_to_authenticating,
            (&reserved->Ok_0, p2),
            authenticating,
        ),
        *p3 == *final(p2),
        call_ensures(
            ReservedConversation::transition_to_authenticating,
            (&reserved->Ok_0, p3),
            again,
        ),
    ensures
        lease == Err::<ConversationLease, ServerError>(
            ServerError::InvalidConversationSlotState { state: ConversationState::Reserved },
        ),
        again == Err::<(), ServerError>(
            ServerError::InvalidConversationSlotState { state: ConversationState::Authenticating },
        ),
{
}

/// What a conversation's streams arrive at is handed out once.
pub proof fn law_endpoint_handed_out_once(
    p: &mut Ssh3Protocol,
    id: u64,
    created: Result<ReservedConversation, ServerError>,
    reserved: &mut ReservedConversation,
    again: Result<(), ServerError>,
    q: &mut Ssh3Protocol,
    fresh: Result<ReservedConversation, ServerError>,
    taker: &mut ReservedConversation,
    first: Result<(), ServerError>,
    second_taker: &mut ReservedConversation,
    second: Result<(), ServerError>,
)
    requires
        old(p)@.wf(),
        call_ensures(Ssh3Protocol::create_transport, (p, id), created),
        created is Ok,
        *reserved == created->Ok_0,
        call_ensures(ReservedConversation::transport_server, (reserved, &*final(p)), again),
        old(q)@.wf(),
        call_ensures(Ssh3Protocol::reserve_conversation, (q, id), fresh),
        fresh is Ok,
        *taker == fresh->Ok_0,
        call_ensures(ReservedConversation::transport_server, (taker, &*final(q)), first),
        *second_taker == *final(taker),
        call_ensures(ReservedConversation::transport_server, (second_taker, &*final(q)), second),
    ensures
        again == Err::<(), ServerError>(
            ServerError::ConsumedConversationEndpoint { conversation_id: id },
        ),
        first is Ok,
        second == Err::<(), ServerError>(
            ServerError::ConsumedConversationEndpoint { conversation_id: id },
        ),
{
}

/// A request that goes well: the program is looked for, started, served and told what to
/// do; once the user is let in the client is told so, and from then on the conversation is
/// active; global requests are handled once the control stream was taken over.
pub proof fn law_request_goes_well(
    p1: &mut Ssh3Protocol,
    id: u64,
    r1: (AcceptedConnect, Vec<ConnectAction>),
    p2: &mut Ssh3Protocol,
    r2: (AcceptedConnect, Vec<ConnectAction>),
    p3: &mut Ssh3Protocol,
    r3: (AcceptedConnect, Vec<ConnectAction>),
    p4: &mut Ssh3Protocol,
    r4: (AcceptedConnect, Vec<ConnectAction>),
    before: Option<ConversationState>,
    p5: &mut Ssh3Protocol,
    r5: (AcceptedConnect, Vec<ConnectAction>),
    let_in: Option<ConversationState>,
    p6: &mut Ssh3Protocol,
    r6: (AcceptedConnect, Vec<ConnectAction>),
    p7: &mut Ssh3Protocol,
    r7: (AcceptedConnect, Vec<ConnectAction>),
    over: Option<ConversationState>,
)
    requires
        old(p1)@.wf(),
        old(p1)@.next < u64::MAX,
        call_ensures(AcceptedConnect::handle_accepted_connect, (p1, id), r1),
        *p2 == *final(p1),
        call_ensures(AcceptedConnect::advance, (r1.0, ConnectEvent::Located(true), p2), r2),
        *p3 == *final(p2),
        call_ensures(AcceptedConnect::advance, (r2.0, ConnectEvent::Spawned(true), p3), r3),
        *p4 == *final(p3),
        call_ensures(AcceptedConnect::advance, (r3.0, ConnectEvent::BootstrapSent(true), p4), r4),
        call_ensures(Ssh3Protocol::state, (&*final(p4), id), before),
        *p5 == *final(p4),
        call_ensures(
            AcceptedConnect::advance,
            (r4.0, ConnectEvent::Authenticated(AuthOutcome::Success), p5),
            r5,
        ),
        call_ensures(Ssh3Protocol::state, (&*final(p5), id), let_in),
        *p6 == *final(p5),
        call_ensures(AcceptedConnect::advance, (r5.0, ConnectEvent::ControlStarted(true), p6), r6),
        *p7 == *final(p6),
        call_ensures(AcceptedConnect::advance, (r6.0, ConnectEvent::Exited, p7), r7),
        call_ensures(Ssh3Protocol::state, (&*final(p7), id), over),
    ensures
        r1.1@ == seq![ConnectAction::LocateSessionBinary],
        r2.1@ == seq![ConnectAction::SpawnChild],
        r3.1@ == seq![ConnectAction::ServeTransport, ConnectAction::SendBootstrap],
        r4.1@ == seq![ConnectAction::AwaitAuth],
        before == Some(ConversationState::Authenticating),
        r5.1@ == seq![
            ConnectAction::Respond(200),
            ConnectAction::StartControl,
            ConnectAction::AwaitControlStart,
        ],
        let_in == Some(ConversationState::Active),
        r6.1@ == seq![ConnectAction::SetReady(true), ConnectAction::AwaitExit],
        r7.0 is Done,
        r7.1@ == seq![
            ConnectAction::SetReady(false),
            ConnectAction::AbortTransport,
            ConnectAction::AbortControl,
            ConnectAction::KillChild,
            ConnectAction::CleanupListeners,
        ],
        over is None,
{
    let slot = old(p1)@.next;
    assert(p2@.state_of(id) == Some(ConversationState::Reserved));
    assert(r1.0.holder() == Some((id, slot)));
    assert(p3@.state_of(id) == Some(ConversationState::Reserved));
    assert(r2.0.holder() == Some((id, slot)));
    assert(p4@.state_of(id) == Some(ConversationState::Authenticating));
    assert(r3.0.holder() == Some((id, slot)));
    assert(p5@.state_of(id) == Some(ConversationState::Authenticating));
    assert(r4.0.holder() == Some((id, slot)));
    assert(p6@.state_of(id) == Some(ConversationState::Active));
    assert(r5.0.holder() == Some((id, slot)));
    assert(p7@.state_of(id) == Some(ConversationState::Active));
    assert(r6.0.holder() == Some((id, slot)));
}

/// A request that goes wrong ends there: the client is told, unless it was told before, a
/// process that runs is killed, and the conversation is given up.
pub proof fn law_request_goes_wrong(
    a: AcceptedConnect,
    e: ConnectEvent,
    p: &mut Ssh3Protocol,
    r: (AcceptedConnect, Vec<ConnectAction>),
    id: u64,
    slot: u64,
    after: Option<ConversationState>,
)
    requires
        call_ensures(AcceptedConnect::advance, (a, e, p), r),
        a.holder() == Some((id, slot)),
        old(p)@.registry.contains_key(id) && old(p)@.registry[id] == slot,
        call_ensures(Ssh3Protocol::state, (&*final(p), id), after),
    ensures
        a is Locating && e == ConnectEvent::Located(false) ==> r.0 is Done && after is None
            && r.1@ == seq![ConnectAction::Respond(500)],
        a is Spawning && e == ConnectEvent::Spawned(false) ==> r.0 is Done && after is None
            && r.1@ == seq![ConnectAction::Respond(500)],
        a is Bootstrapping && e == ConnectEvent::BootstrapSent(false) ==> r.0 is Done
            && after is None && r.1@ == seq![ConnectAction::KillChild, ConnectAction::Respond(500)],
        a is Authenticating && e == ConnectEvent::Authenticated(AuthOutcome::Unauthorized)
            ==> r.0 is Done && after is None && r.1@ == seq![
            ConnectAction::KillChild,
            ConnectAction::Respond(401),
        ],
        a is ControlStarting && e == ConnectEvent::ControlStarted(false) ==> r.0 is Done
            && after is None && r.1@ == seq![ConnectAction::AbortControl, ConnectAction::KillChild],
{
}

/// A conversation that is not in the state that a step needs ends the request: before the
/// client was told that it is let in it is told of a failure, and afterwards nothing more,
/// and the process is killed.
pub proof fn law_wrong_state_ends_request(
    a: AcceptedConnect,
    e: ConnectEvent,
    p: &mut Ssh3Protocol,
    r: (AcceptedConnect, Vec<ConnectAction>),
    id: u64,
    slot: u64,
)
    requires
        call_ensures(AcceptedConnect::advance, (a, e, p), r),
        a.holder() == Some((id, slot)),
    ensures
        a is Spawning && e == ConnectEvent::Spawned(true) && old(p)@.slots[slot].state
            != ConversationState::Reserved ==> r.0 is Done && r.1@ == seq![
            ConnectAction::ServeTransport,
            ConnectAction::KillChild,
            ConnectAction::Respond(500),
        ],
        a is Authenticating && e == ConnectEvent::Authenticated(AuthOutcome::Success) && old(
            p,
        )@.slots[slot].state != ConversationState::Authenticating ==> r.0 is Done && r.1@ == seq![
            ConnectAction::Respond(200),
            ConnectAction::KillChild,
        ],
{
}

/// Where no conversation can be reserved the request fails at once.
pub proof fn law_no_conversation_left(
    p: &mut Ssh3Protocol,
    id: u64,
    r: (AcceptedConnect, Vec<ConnectAction>),
)
    requires
        call_ensures(AcceptedConnect::handle_accepted_connect, (p, id), r),
    ensures
        r.0 is Done <==> r.1@ == seq![ConnectAction::Respond(500)],
        !(r.0 is Done) ==> r.0 is Locating,
{
    if !(r.0 is Done) {
        assert(r.1@[0] == ConnectAction::LocateSessionBinary);
    }
}

/// An event that is not awaited changes nothing, and nothing is done once the request is
/// over.
pub proof fn law_other_events_ignored(
    a: AcceptedConnect,
    e: ConnectEvent,
    p: &mut Ssh3Protocol,
    r: (AcceptedConnect, Vec<ConnectAction>),
    held: Option<u64>,
    still: Option<u64>,
)
    requires
        call_ensures(AcceptedConnect::advance, (a, e, p), r),
        call_ensures(AcceptedConnect::slot, (&a,), held),
        call_ensures(AcceptedConnect::slot, (&r.0,), still),
        match a {
            AcceptedConnect::Locating(_) => !(e is Located),
            AcceptedConnect::Spawning(_) => !(e is Spawned),
            AcceptedConnect::Bootstrapping(_) => !(e is BootstrapSent),
            AcceptedConnect::Authenticating(_) => !(e is Authenticated),
            AcceptedConnect::ControlStarting(_) => !(e is ControlStarted),
            AcceptedConnect::Supervising(_) => !(e is Exited),
            AcceptedConnect::Done => true,
        },
    ensures
        r.1@.len() == 0,
        final(p)@ == old(p)@,
        still == held,
        r.0 is Locating <==> a is Locating,
        r.0 is Spawning <==> a is Spawning,
        r.0 is Bootstrapping <==> a is Bootstrapping,
        r.0 is Authenticating <==> a is Authenticating,
        r.0 is ControlStarting <==> a is ControlStarting,
        r.0 is Supervising <==> a is Supervising,
        r.0 is Done <==> a is Done,
{
}

/// A request can be handled exactly where nothing is missing for it.
pub proof fn law_nothing_missing(
    h: &Ssh3ConnectHandler,
    protocols: bool,
    ssh3_protocol: bool,
    stream_id: bool,
    r: Option<ServerError>,
)
    requires
        call_ensures(
            Ssh3ConnectHandler::missing_part,
            (h, protocols, ssh3_protocol, stream_id),
            r,
        ),
    ensures
        r is None <==> protocols && ssh3_protocol && stream_id,
        r == Some(ServerError::MissingStreamId) ==> !stream_id,
        r == Some(ServerError::MissingSsh3Protocol) ==> !ssh3_protocol,
        r == Some(ServerError::MissingProtocols) <==> !protocols,
        r is Some ==> r == Some(ServerError::MissingStreamId) || r == Some(
            ServerError::MissingSsh3Protocol,
        ) || r == Some(ServerError::MissingProtocols),
{
}

/// The states are told by their names.
pub proof fn law_states_named(a: &ConversationState, r: &'static str)
    requires
        call_ensures(ConversationState::as_str, (a,), r),
    ensures
        *a == ConversationState::Reserved ==> r@ == "Reserved"@,
        *a == ConversationState::Authenticating ==> r@ == "Authenticating"@,
        *a == ConversationState::Upgrading ==> r@ == "Upgrading"@,
        *a == ConversationState::Active ==> r@ == "Active"@,
        *a == ConversationState::Closed ==> r@ == "Closed"@,
{
}

} // verus!
