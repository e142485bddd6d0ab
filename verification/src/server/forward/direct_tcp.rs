//! Forwarding of a TCP connection that the client opens.

use crate::proto::wire;
use crate::proto::wire::{DirectTcpRequest, WireError};
use crate::server::message;
use crate::server::message::{open_confirmation, open_failure, StreamMessage, CONNECT_FAILED};
use crate::text;
use crate::text::{decimal_string, join2, join3};
use vstd::prelude::*;
use vstd::string::*;

verus! {

/// The number as a TCP port, or why it is none.
pub fn validate_port(raw_port: u64, field_name: &str) -> (r: Result<u16, String>)
    ensures
        match r {
            Ok(port) => port == raw_port,
            Err(message) => raw_port > 65535 && message@ == field_name@ + " "@ + text::decimal(
                raw_port as nat,
            ) + " is out of range for a TCP port"@,
        },
{
    if raw_port <= 65535 {
        Ok(raw_port as u16)
    } else {
        let head = join3(field_name, " ", decimal_string(raw_port).as_str());
        Err(join2(head.as_str(), " is out of range for a TCP port"))
    }
}

/// The text of an address and a port.
pub open spec fn host_and_port(host: Seq<char>, port: nat) -> Seq<char> {
    host + ":"@ + text::decimal(port)
}

/// An address and a port, separated by a colon.
pub fn join_host_port(host: &str, port: u16) -> (r: String)
    ensures
        r@ == host_and_port(host@, port as nat),
{
    join3(host, ":", decimal_string(port as u64).as_str())
}

/// What to do with a request for a connection.
#[derive(Debug, Clone, PartialEq, Eq)]
pub enum ForwardPlan {
    /// The channel is refused with this message.
    Refuse(StreamMessage),
    /// Connect to this address; so many bytes of the stream were the request.
    Connect { address: String, consumed: usize },
}

/// Reads where the connection is to go. A port that is too large is refused, never
/// cut down to one that fits.
pub fn handle_direct_tcp(data: &[u8]) -> (r: Result<ForwardPlan, WireError>)
    ensures
        match wire::take_fields(DirectTcpRequest::kinds(), 0, data@) {
            Err(e) => r == Err::<ForwardPlan, WireError>(e),
            Ok((fields, rest)) => {
                let host = fields[0]->Text_0;
                let port = fields[1]->Number_0;
                if port > 65535 {
                    r matches Ok(ForwardPlan::Refuse(m)) && message::refuses(
                        m,
                        CONNECT_FAILED,
                        "destination port is out of range for a TCP port"@,
                    )
                } else {
                    r matches Ok(ForwardPlan::Connect { address, consumed }) && address@
                        == host_and_port(host, port) && consumed == data@.len() - rest.len()
                }
            },
        },
{
    match DirectTcpRequest::decode(data) {
        Err(e) => Err(e),
        Ok((request, consumed)) => {
            assert(request.fields()[0] == wire::WireField::Text(request.dest_host@));
            assert(request.fields()[1] == wire::WireField::Number(request.dest_port as nat));
            match validate_port(request.dest_port, "destination port") {
                Err(_) => Ok(
                    ForwardPlan::Refuse(
                        open_failure(
                            CONNECT_FAILED,
                            "destination port is out of range for a TCP port",
                        ),
                    ),
                ),
                Ok(port) => Ok(
                    ForwardPlan::Connect {
                        address: join_host_port(request.dest_host.as_str(), port),
                        consumed,
                    },
                ),
            }
        },
    }
}

/// The message that tells the client whether the connection was made.
pub fn connect_reply(connected: bool) -> (r: StreamMessage)
    ensures
        if connected {
            r == (StreamMessage::ChannelOpenConfirmation {
                max_message_size: wire::DEFAULT_MAX_MESSAGE_SIZE,
            })
        } else {
            message::refuses(r, CONNECT_FAILED, "connect failed"@)
        },
{
    if connected {
        open_confirmation()
    } else {
        open_failure(CONNECT_FAILED, "connect failed")
    }
}

} // verus!
