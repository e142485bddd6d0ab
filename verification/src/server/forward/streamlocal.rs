//! Forwarding of Unix socket connections, in both directions.

use crate::proto::codec;
use crate::proto::codec::{ChannelStreamHeader, ConversationId, HeaderFields};
use crate::proto::wire;
use crate::proto::wire::{
    DirectStreamlocalRequest, ForwardedStreamlocalRequest, WireError, DEFAULT_MAX_MESSAGE_SIZE,
};
use crate::server::forward::table;
use crate::server::forward::table::{Listener, ListenerTable};
use vstd::prelude::*;
use vstd::string::*;

verus! {

/// Reads which socket the client's connection is to go to, and how many bytes of the
/// stream were the request.
pub fn handle_direct_streamlocal(data: &[u8]) -> (r: Result<(String, usize), WireError>)
    ensures
        match wire::take_fields(DirectStreamlocalRequest::kinds(), 0, data@) {
            Err(e) => r == Err::<(String, usize), WireError>(e),
            Ok((fields, rest)) => r matches Ok((path, consumed)) && path@ == fields[0]->Text_0
                && consumed == data@.len() - rest.len(),
        },
{
    match DirectStreamlocalRequest::decode(data) {
        Err(e) => Err(e),
        Ok((request, consumed)) => {
            assert(request.fields()[0] == wire::WireField::Text(request.socket_path@));
            Ok((request.socket_path, consumed))
        },
    }
}

/// The Unix socket listeners of a connection, each with whether its socket file was
/// made for it and what the program keeps for it.
pub struct ReverseStreamlocalForwarder<T> {
    listeners: ListenerTable<(bool, T)>,
}

/// A listener that has been taken out: whether to remove its socket file, and what
/// the program keeps for it.
#[derive(Debug)]
pub struct StoppedSocket<T> {
    pub socket_path: String,
    pub owner: u64,
    pub remove_file: bool,
    pub task: T,
}

/// The owner of the listener at each socket path, whether its socket file was made
/// for it, and what the program keeps for it.
pub open spec fn by_path<T>(m: Map<(Seq<char>, u16), (u64, (bool, T))>) -> Map<
    Seq<char>,
    (u64, bool, T),
> {
    Map::new(
        |p: Seq<char>| m.contains_key((p, 0u16)),
        |p: Seq<char>| (m[(p, 0u16)].0, m[(p, 0u16)].1.0, m[(p, 0u16)].1.1),
    )
}

impl<T> View for ReverseStreamlocalForwarder<T> {
    type V = Map<Seq<char>, (u64, bool, T)>;

    closed spec fn view(&self) -> Map<Seq<char>, (u64, bool, T)> {
        by_path(self.listeners@)
    }
}

/// The listeners of other conversations.
pub open spec fn sockets_not_of<T>(m: Map<Seq<char>, (u64, bool, T)>, owner: u64) -> Map<
    Seq<char>,
    (u64, bool, T),
> {
    Map::new(|p: Seq<char>| m.contains_key(p) && m[p].0 != owner, |p: Seq<char>| m[p])
}

impl<T> ReverseStreamlocalForwarder<T> {
    /// No socket path is listened at twice.
    pub closed spec fn wf(&self) -> bool {
        &&& self.listeners.wf()
        &&& forall|k: (Seq<char>, u16)| #[trigger] self.listeners@.contains_key(k) ==> k.1 == 0
    }

    /// No listeners.
    pub fn new() -> (r: Self)
        ensures
            r.wf(),
            r@ == Map::<Seq<char>, (u64, bool, T)>::empty(),
    {
        let r = ReverseStreamlocalForwarder { listeners: ListenerTable::new() };
        assert(r@ =~= Map::<Seq<char>, (u64, bool, T)>::empty());
        r
    }

    /// Whether there is a listener at this socket path.
    pub fn is_listening(&self, socket_path: &str) -> (r: bool)
        ensures
            r == self@.contains_key(socket_path@),
    {
        self.listeners.contains(socket_path, 0)
    }

    /// Notes a listener that has been bound at this socket path for a conversation.
    /// A listener whose place it takes is given back to be aborted. Its socket file is not
    /// to be removed: the file at the path is now that of the new listener.
    pub fn start_listening(&mut self, socket_path: &str, conversation_id: u64, task: T) -> (r:
        Option<StoppedSocket<T>>)
        requires
            old(self).wf(),
        ensures
            final(self).wf(),
            final(self)@ == old(self)@.insert(socket_path@, (conversation_id, true, task)),
            match r {
                Some(l) => {
                    &&& old(self)@.contains_key(socket_path@)
                    &&& l.socket_path@ == socket_path@
                    &&& old(self)@[socket_path@].0 == l.owner
                    &&& old(self)@[socket_path@].2 == l.task
                    &&& !l.remove_file
                },
                None => !old(self)@.contains_key(socket_path@),
            },
    {
        let displaced = self.listeners.insert(
            Listener {
                address: socket_path.to_owned(),
                port: 0,
                owner: conversation_id,
                task: (true, task),
            },
        );
        assert(self@ =~= old(self)@.insert(socket_path@, (conversation_id, true, task)));
        match displaced {
            None => None,
            Some(l) => Some(
                StoppedSocket {
                    socket_path: l.address,
                    owner: l.owner,
                    remove_file: false,
                    task: l.task.1,
                },
            ),
        }
    }

    /// Stops a listener that belongs to the conversation, and gives it back to be
    /// aborted; nothing where there is none or it belongs to another conversation.
    pub fn stop_listening(&mut self, socket_path: &str, owner: u64) -> (r: Option<StoppedSocket<T>>)
        requires
            old(self).wf(),
        ensures
            final(self).wf(),
            if old(self)@.contains_key(socket_path@) && old(self)@[socket_path@].0 == owner {
                &&& r matches Some(l)
                &&& l.socket_path@ == socket_path@
                &&& old(self)@[socket_path@] == (l.owner, l.remove_file, l.task)
                &&& final(self)@ == old(self)@.remove(socket_path@)
            } else {
                r is None && final(self)@ == old(self)@
            },
    {
        let stopped = self.listeners.remove_owned(socket_path, 0, owner);
        match stopped {
            None => None,
            Some(l) => {
                assert(self@ =~= old(self)@.remove(socket_path@));
                Some(
                    StoppedSocket {
                        socket_path: l.address,
                        owner: l.owner,
                        remove_file: l.task.0,
                        task: l.task.1,
                    },
                )
            },
        }
    }

    /// Stops every listener of a conversation, and gives them back to be aborted. The
    /// listeners of other conversations stay.
    pub fn cleanup_for_owner(&mut self, owner: u64) -> (r: Vec<Listener<(bool, T)>>)
        requires
            old(self).wf(),
        ensures
            final(self).wf(),
            final(self)@ == sockets_not_of(old(self)@, owner),
            table::distinct_keys(r@),
            forall|p: Seq<char>| #[trigger]
                by_path(table::listener_map(r@)).contains_key(p) <==> old(self)@.contains_key(p)
                    && old(self)@[p].0 == owner,
            forall|p: Seq<char>|
                by_path(table::listener_map(r@)).contains_key(p) ==> #[trigger] by_path(
                    table::listener_map(r@),
                )[p] == old(self)@[p],
    {
        let r = self.listeners.remove_all_of(owner);
        assert(self@ =~= sockets_not_of(old(self)@, owner));
        r
    }
}

/// Cleaning up for a conversation a second time changes nothing, and every listener
/// of another conversation stays.
pub proof fn lemma_socket_cleanup<T>(m: Map<Seq<char>, (u64, bool, T)>, owner: u64)
    ensures
        sockets_not_of(sockets_not_of(m, owner), owner) == sockets_not_of(m, owner),
        forall|p: Seq<char>|
            m.contains_key(p) && m[p].0 != owner ==> #[trigger] sockets_not_of(
                m,
                owner,
            ).contains_key(p) && sockets_not_of(m, owner)[p] == m[p],
{
    assert(sockets_not_of(sockets_not_of(m, owner), owner) =~= sockets_not_of(m, owner));
}

/// The header of the channel for a connection that came in.
pub open spec fn forwarded_streamlocal_header(conversation_id: u64) -> HeaderFields {
    HeaderFields {
        conversation_id,
        channel_type: "forwarded-streamlocal@openssh.com"@,
        max_message_size: DEFAULT_MAX_MESSAGE_SIZE,
    }
}

/// The bytes that open the channel for a connection that came in: the header, then
/// the socket that it came in at. There are none where the conversation or the path
/// is too large to be written.
pub fn forwarded_streamlocal_opening(
    conversation_id: u64,
    request: &ForwardedStreamlocalRequest,
) -> (r: Option<Vec<u8>>)
    ensures
        match r {
            Some(b) => {
                &&& codec::header_fits(forwarded_streamlocal_header(conversation_id))
                &&& wire::all_fit(request.fields())
                &&& b@ == codec::header_bytes(forwarded_streamlocal_header(conversation_id))
                    + wire::fields_bytes(request.fields(), 0)
            },
            None => !codec::header_fits(forwarded_streamlocal_header(conversation_id))
                || !wire::all_fit(request.fields()),
        },
{
    let header = ChannelStreamHeader::new(
        ConversationId::new(conversation_id),
        "forwarded-streamlocal@openssh.com".to_owned(),
        DEFAULT_MAX_MESSAGE_SIZE,
    );
    match (header.encode_to_vec(), request.encode()) {
        (Ok(mut b), Some(data)) => {
            b.extend_from_slice(data.as_slice());
            assert(b@ =~= codec::header_bytes(forwarded_streamlocal_header(conversation_id))
                + wire::fields_bytes(request.fields(), 0));
            Some(b)
        },
        _ => None,
    }
}

} // verus!
