//! Forwarding of TCP connections that come in at the server.

use crate::proto::codec;
use crate::proto::codec::{ChannelStreamHeader, ConversationId, HeaderFields};
use crate::proto::wire;
use crate::proto::wire::{ForwardedTcpipRequest, DEFAULT_MAX_MESSAGE_SIZE};
use crate::server::forward::table;
use crate::server::forward::table::{Listener, ListenerTable};
use crate::server::message::StreamMessage;
use vstd::prelude::*;
use vstd::string::*;

verus! {

/// The TCP listeners of a connection, each with what the program keeps for it.
pub struct ReverseTcpForwarder<T> {
    listeners: ListenerTable<T>,
}

impl<T> View for ReverseTcpForwarder<T> {
    type V = Map<(Seq<char>, u16), (u64, T)>;

    closed spec fn view(&self) -> Map<(Seq<char>, u16), (u64, T)> {
        self.listeners@
    }
}

impl<T> ReverseTcpForwarder<T> {
    /// No address and port is listened at twice.
    pub closed spec fn wf(&self) -> bool {
        self.listeners.wf()
    }

    /// No listeners.
    pub fn new() -> (r: Self)
        ensures
            r.wf(),
            r@ == Map::<(Seq<char>, u16), (u64, T)>::empty(),
    {
        ReverseTcpForwarder { listeners: ListenerTable::new() }
    }

    /// Whether there is a listener at this address and port.
    pub fn is_listening(&self, bind_address: &str, bind_port: u16) -> (r: bool)
        ensures
            r == self@.contains_key((bind_address@, bind_port)),
    {
        self.listeners.contains(bind_address, bind_port)
    }

    /// Notes a listener that has been bound at this address and port for a
    /// conversation. A listener whose place it takes is given back to be aborted.
    pub fn start_listening(
        &mut self,
        bind_address: &str,
        actual_port: u16,
        conversation_id: u64,
        task: T,
    ) -> (r: Option<Listener<T>>)
        requires
            old(self).wf(),
        ensures
            final(self).wf(),
            final(self)@ == old(self)@.insert((bind_address@, actual_port), (conversation_id, task)),
            match r {
                Some(l) => {
                    &&& old(self)@.contains_key((bind_address@, actual_port))
                    &&& l.key() == (bind_address@, actual_port)
                    &&& old(self)@[(bind_address@, actual_port)] == (l.owner, l.task)
                },
                None => !old(self)@.contains_key((bind_address@, actual_port)),
            },
    {
        self.listeners.insert(
            Listener {
                address: bind_address.to_owned(),
                port: actual_port,
                owner: conversation_id,
                task,
            },
        )
    }

    /// Stops a listener that belongs to the conversation, and gives it back to be
    /// aborted; nothing where there is none or it belongs to another conversation.
    pub fn stop_listening(&mut self, bind_address: &str, bind_port: u16, owner: u64) -> (r: Option<
        Listener<T>,
    >)
        requires
            old(self).wf(),
        ensures
            final(self).wf(),
            ({
                let k = (bind_address@, bind_port);
                if old(self)@.contains_key(k) && old(self)@[k].0 == owner {
                    &&& r matches Some(l)
                    &&& l.key() == k
                    &&& old(self)@[k] == (l.owner, l.task)
                    &&& final(self)@ == old(self)@.remove(k)
                } else {
                    r is None && final(self)@ == old(self)@
                }
            }),
    {
        self.listeners.remove_owned(bind_address, bind_port, owner)
    }

    /// Stops every listener of a conversation, and gives them back to be aborted. The
    /// listeners of other conversations stay.
    pub fn cleanup_for_owner(&mut self, owner: u64) -> (r: Vec<Listener<T>>)
        requires
            old(self).wf(),
        ensures
            final(self).wf(),
            final(self)@ == table::not_owned_by(old(self)@, owner),
            table::distinct_keys(r@),
            table::listener_map(r@) == table::owned_by(old(self)@, owner),
    {
        self.listeners.remove_all_of(owner)
    }
}

/// The header of the channel for a connection that came in.
pub open spec fn forwarded_tcpip_header(conversation_id: u64) -> HeaderFields {
    HeaderFields {
        conversation_id,
        channel_type: "forwarded-tcpip"@,
        max_message_size: DEFAULT_MAX_MESSAGE_SIZE,
    }
}

/// The bytes that open the channel for a connection that came in: the header, then
/// where the connection came in and where it came from. There are none where the
/// conversation or an address is too large to be written.
pub fn forwarded_tcpip_opening(conversation_id: u64, request: &ForwardedTcpipRequest) -> (r: Option<
    Vec<u8>,
>)
    ensures
        match r {
            Some(b) => {
                &&& codec::header_fits(forwarded_tcpip_header(conversation_id))
                &&& wire::all_fit(request.fields())
                &&& b@ == codec::header_bytes(forwarded_tcpip_header(conversation_id))
                    + wire::fields_bytes(request.fields(), 0)
            },
            None => !codec::header_fits(forwarded_tcpip_header(conversation_id))
                || !wire::all_fit(request.fields()),
        },
{
    let header = ChannelStreamHeader::new(
        ConversationId::new(conversation_id),
        "forwarded-tcpip".to_owned(),
        DEFAULT_MAX_MESSAGE_SIZE,
    );
    match (header.encode_to_vec(), request.encode()) {
        (Ok(mut b), Some(data)) => {
            b.extend_from_slice(data.as_slice());
            assert(b@ =~= codec::header_bytes(forwarded_tcpip_header(conversation_id))
                + wire::fields_bytes(request.fields(), 0));
            Some(b)
        },
        _ => None,
    }
}

/// What the client's answer to a forwarded channel comes to.
#[derive(Debug, Clone, Copy, PartialEq, Eq, Structural)]
pub enum ForwardedAnswer {
    /// Bytes are to be passed in both directions.
    Bridge,
    /// The connection is to be closed.
    Close,
    /// The answer is no answer to the opening of a channel.
    Unexpected,
}

/// Decides on the client's answer to a forwarded channel.
pub fn forwarded_answer(message: &StreamMessage) -> (r: ForwardedAnswer)
    ensures
        r == match message {
            StreamMessage::ChannelOpenConfirmation { .. } => ForwardedAnswer::Bridge,
            StreamMessage::ChannelOpenFailure { .. } => ForwardedAnswer::Close,
            _ => ForwardedAnswer::Unexpected,
        },
{
    match message {
        StreamMessage::ChannelOpenConfirmation { .. } => ForwardedAnswer::Bridge,
        StreamMessage::ChannelOpenFailure { .. } => ForwardedAnswer::Close,
        _ => ForwardedAnswer::Unexpected,
    }
}

} // verus!
