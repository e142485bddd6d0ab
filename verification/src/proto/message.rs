//! The messages that run over a channel stream and over the control stream.
//!
//! A message is written as one byte, its type, followed by a CBOR record, its body.

use crate::outside;
use crate::outside::{bytes_copy_from_slice, bytes_from_vec, cbor_write};
use crate::proto::cbor;
use crate::proto::cbor::{
    cbor_decode, content, field, find, items_behind, items_behind_name, lookup, map_entries,
    octets_value, other_fields, read_bool, read_octets, read_text, read_u32, read_u64, read_variant,
    record, text_value, uint_value, unread_then, CborEncodeError, CborTree, Field, Fields, Record,
};
use crate::proto::codec::MessageType;
use crate::proto::error::{CodecError, CodecFault};
use crate::text::same_text;
use ciborium::value::Value;
use vstd::prelude::*;
use vstd::slice::*;
use vstd::string::*;

verus! {

/// The kinds of channels.
#[derive(Debug, Clone, PartialEq, Eq)]
pub enum ChannelType {
    Session,
    DirectTcp,
    ReverseTcp,
    DirectUdp,
    ReverseUdp,
    /// A kind that is not known here.
    Other(String),
}

/// What a `ChannelType` says.
pub enum ChannelTypeView {
    Session,
    DirectTcp,
    ReverseTcp,
    DirectUdp,
    ReverseUdp,
    Other(Seq<char>),
}

impl View for ChannelType {
    type V = ChannelTypeView;

    open spec fn view(&self) -> ChannelTypeView {
        match self {
            ChannelType::Session => ChannelTypeView::Session,
            ChannelType::DirectTcp => ChannelTypeView::DirectTcp,
            ChannelType::ReverseTcp => ChannelTypeView::ReverseTcp,
            ChannelType::DirectUdp => ChannelTypeView::DirectUdp,
            ChannelType::ReverseUdp => ChannelTypeView::ReverseUdp,
            ChannelType::Other(s) => ChannelTypeView::Other(s@),
        }
    }
}

/// The name of a kind of channel.
pub open spec fn channel_type_name(t: ChannelTypeView) -> Seq<char> {
    match t {
        ChannelTypeView::Session => "session"@,
        ChannelTypeView::DirectTcp => "direct-tcp"@,
        ChannelTypeView::ReverseTcp => "reverse-tcp"@,
        ChannelTypeView::DirectUdp => "direct-udp"@,
        ChannelTypeView::ReverseUdp => "reverse-udp"@,
        ChannelTypeView::Other(s) => s,
    }
}

/// The kind of channel with a given name.
pub open spec fn channel_type_named(s: Seq<char>) -> ChannelTypeView {
    if s == "session"@ {
        ChannelTypeView::Session
    } else if s == "direct-tcp"@ {
        ChannelTypeView::DirectTcp
    } else if s == "reverse-tcp"@ {
        ChannelTypeView::ReverseTcp
    } else if s == "direct-udp"@ {
        ChannelTypeView::DirectUdp
    } else if s == "reverse-udp"@ {
        ChannelTypeView::ReverseUdp
    } else {
        ChannelTypeView::Other(s)
    }
}

impl ChannelType {
    /// The name of the kind of channel.
    pub fn as_str(&self) -> (r: &str)
        ensures
            r@ == channel_type_name(self@),
    {
        match self {
            ChannelType::Session => "session",
            ChannelType::DirectTcp => "direct-tcp",
            ChannelType::ReverseTcp => "reverse-tcp",
            ChannelType::DirectUdp => "direct-udp",
            ChannelType::ReverseUdp => "reverse-udp",
            ChannelType::Other(s) => s.as_str(),
        }
    }
}

impl<'a> From<&'a str> for ChannelType {
    fn from(s: &'a str) -> (r: Self)
        ensures
            r@ == channel_type_named(s@),
    {
        if same_text(s, "session") {
            ChannelType::Session
        } else if same_text(s, "direct-tcp") {
            ChannelType::DirectTcp
        } else if same_text(s, "reverse-tcp") {
            ChannelType::ReverseTcp
        } else if same_text(s, "direct-udp") {
            ChannelType::DirectUdp
        } else if same_text(s, "reverse-udp") {
            ChannelType::ReverseUdp
        } else {
            ChannelType::Other(s.to_owned())
        }
    }
}

impl<'a> vstd::std_specs::convert::FromSpecImpl<&'a str> for ChannelType {
    open spec fn obeys_from_spec() -> bool {
        false
    }

    open spec fn from_spec(s: &'a str) -> Self {
        vstd::pervasive::arbitrary()
    }
}

impl From<String> for ChannelType {
    fn from(s: String) -> (r: Self)
        ensures
            r@ == channel_type_named(s@),
    {
        ChannelType::from(s.as_str())
    }
}

impl vstd::std_specs::convert::FromSpecImpl<String> for ChannelType {
    open spec fn obeys_from_spec() -> bool {
        false
    }

    open spec fn from_spec(s: String) -> Self {
        vstd::pervasive::arbitrary()
    }
}

/// The kind with the name of a kind is that kind again; only a kind that is not known
/// here but has the name of one that is becomes that one.
pub proof fn lemma_channel_type_named_again(t: ChannelTypeView)
    ensures
        t !is Other ==> channel_type_named(channel_type_name(t)) == t,
        t is Other && channel_type_named(t->Other_0) is Other ==> channel_type_named(
            channel_type_name(t),
        ) == t,
{
    reveal_strlit("session");
    reveal_strlit("direct-tcp");
    reveal_strlit("reverse-tcp");
    reveal_strlit("direct-udp");
    reveal_strlit("reverse-udp");
    assert("session"@.len() == 7);
    assert("direct-tcp"@[7] == 't');
    assert("direct-udp"@[7] == 'u');
    assert("reverse-tcp"@[8] == 't');
    assert("reverse-udp"@[8] == 'u');
    assert("direct-tcp"@.len() == 10);
    assert("direct-udp"@.len() == 10);
    assert("reverse-tcp"@.len() == 11);
    assert("reverse-udp"@.len() == 11);
}

/// The name of the kind with a name is that name.
pub proof fn lemma_channel_type_name_kept(s: Seq<char>)
    ensures
        channel_type_name(channel_type_named(s)) == s,
{
}

/// What a channel request asks for.
#[derive(Debug, Clone, PartialEq, Eq)]
pub enum ChannelRequestType {
    /// A terminal is wanted.
    PtyReq {
        term: String,
        width_chars: u32,
        height_rows: u32,
        width_px: u32,
        height_px: u32,
        modes: Vec<u8>,
    },
    /// A shell is to be started.
    Shell,
    /// A command is to be run.
    Exec {
        command: String,
    },
    /// A subsystem is to be started.
    Subsystem {
        subsystem: String,
    },
    /// The terminal has changed its size.
    WindowChange {
        width_chars: u32,
        height_rows: u32,
        width_px: u32,
        height_px: u32,
    },
    /// A signal is to be delivered.
    Signal {
        signal: String,
    },
    /// The process has ended with a status.
    ExitStatus {
        exit_status: u32,
    },
    /// The process was ended by a signal.
    ExitSignal {
        signal: String,
        core_dumped: bool,
        error_message: String,
        language_tag: String,
    },
    /// An environment variable is to be set.
    Env {
        name: String,
        value: String,
    },
}

/// What a `ChannelRequestType` says.
pub enum ChannelRequestView {
    PtyReq {
        term: Seq<char>,
        width_chars: u32,
        height_rows: u32,
        width_px: u32,
        height_px: u32,
        modes: Seq<u8>,
    },
    Shell,
    Exec {
        command: Seq<char>,
    },
    Subsystem {
        subsystem: Seq<char>,
    },
    WindowChange {
        width_chars: u32,
        height_rows: u32,
        width_px: u32,
        height_px: u32,
    },
    Signal {
        signal: Seq<char>,
    },
    ExitStatus {
        exit_status: u32,
    },
    ExitSignal {
        signal: Seq<char>,
        core_dumped: bool,
        error_message: Seq<char>,
        language_tag: Seq<char>,
    },
    Env {
        name: Seq<char>,
        value: Seq<char>,
    },
}

impl View for ChannelRequestType {
    type V = ChannelRequestView;

    open spec fn view(&self) -> ChannelRequestView {
        match self {
            ChannelRequestType::PtyReq { term, width_chars, height_rows, width_px, height_px, modes } => ChannelRequestView::PtyReq { term: term@, width_chars: *width_chars, height_rows: *height_rows, width_px: *width_px, height_px: *height_px, modes: modes@ },
            ChannelRequestType::Shell => ChannelRequestView::Shell,
            ChannelRequestType::Exec { command } => ChannelRequestView::Exec { command: command@ },
            ChannelRequestType::Subsystem { subsystem } => ChannelRequestView::Subsystem { subsystem: subsystem@ },
            ChannelRequestType::WindowChange { width_chars, height_rows, width_px, height_px } => ChannelRequestView::WindowChange { width_chars: *width_chars, height_rows: *height_rows, width_px: *width_px, height_px: *height_px },
            ChannelRequestType::Signal { signal } => ChannelRequestView::Signal { signal: signal@ },
            ChannelRequestType::ExitStatus { exit_status } => ChannelRequestView::ExitStatus { exit_status: *exit_status },
            ChannelRequestType::ExitSignal { signal, core_dumped, error_message, language_tag } => ChannelRequestView::ExitSignal { signal: signal@, core_dumped: *core_dumped, error_message: error_message@, language_tag: language_tag@ },
            ChannelRequestType::Env { name, value } => ChannelRequestView::Env { name: name@, value: value@ },
        }
    }
}

impl ChannelRequestType {
    /// The name of the request in the SSH connection protocol.
    pub open spec fn protocol_name(self) -> Seq<char> {
        match self {
            ChannelRequestType::PtyReq { .. } => "pty-req"@,
            ChannelRequestType::Shell => "shell"@,
            ChannelRequestType::Exec { .. } => "exec"@,
            ChannelRequestType::Subsystem { .. } => "subsystem"@,
            ChannelRequestType::WindowChange { .. } => "window-change"@,
            ChannelRequestType::Signal { .. } => "signal"@,
            ChannelRequestType::ExitStatus { .. } => "exit-status"@,
            ChannelRequestType::ExitSignal { .. } => "exit-signal"@,
            ChannelRequestType::Env { .. } => "env"@,
        }
    }

    /// The name of the request in the SSH connection protocol.
    pub fn request_type_str(&self) -> (r: &'static str)
        ensures
            r@ == self.protocol_name(),
    {
        match self {
            ChannelRequestType::PtyReq { .. } => "pty-req",
            ChannelRequestType::Shell => "shell",
            ChannelRequestType::Exec { .. } => "exec",
            ChannelRequestType::Subsystem { .. } => "subsystem",
            ChannelRequestType::WindowChange { .. } => "window-change",
            ChannelRequestType::Signal { .. } => "signal",
            ChannelRequestType::ExitStatus { .. } => "exit-status",
            ChannelRequestType::ExitSignal { .. } => "exit-signal",
            ChannelRequestType::Env { .. } => "env",
        }
    }
}

/// What a global request asks for.
#[derive(Debug, Clone, PartialEq, Eq)]
pub enum GlobalRequestType {
    /// Connections to a TCP port are to be forwarded.
    TcpipForward {
        bind_host: String,
        bind_port: u32,
    },
    /// Connections to a TCP port are no longer to be forwarded.
    CancelTcpipForward {
        bind_host: String,
        bind_port: u32,
    },
    /// Connections to a Unix socket are to be forwarded.
    StreamlocalForward {
        socket_path: String,
    },
    /// Connections to a Unix socket are no longer to be forwarded.
    CancelStreamlocalForward {
        socket_path: String,
    },
}

/// What a `GlobalRequestType` says.
pub enum GlobalRequestView {
    TcpipForward {
        bind_host: Seq<char>,
        bind_port: u32,
    },
    CancelTcpipForward {
        bind_host: Seq<char>,
        bind_port: u32,
    },
    StreamlocalForward {
        socket_path: Seq<char>,
    },
    CancelStreamlocalForward {
        socket_path: Seq<char>,
    },
}

impl View for GlobalRequestType {
    type V = GlobalRequestView;

    open spec fn view(&self) -> GlobalRequestView {
        match self {
            GlobalRequestType::TcpipForward { bind_host, bind_port } => GlobalRequestView::TcpipForward { bind_host: bind_host@, bind_port: *bind_port },
            GlobalRequestType::CancelTcpipForward { bind_host, bind_port } => GlobalRequestView::CancelTcpipForward { bind_host: bind_host@, bind_port: *bind_port },
            GlobalRequestType::StreamlocalForward { socket_path } => GlobalRequestView::StreamlocalForward { socket_path: socket_path@ },
            GlobalRequestType::CancelStreamlocalForward { socket_path } => GlobalRequestView::CancelStreamlocalForward { socket_path: socket_path@ },
        }
    }
}

/// The text that a record holds under a name.
pub open spec fn text_field(m: Seq<(CborTree, CborTree)>, name: Seq<char>) -> Option<Seq<char>> {
    match cbor::field_of(m, name) {
        Some(t) => cbor::text_of(t),
        None => None,
    }
}

/// The 32-bit number that a record holds under a name.
pub open spec fn u32_field(m: Seq<(CborTree, CborTree)>, name: Seq<char>) -> Option<u32> {
    match cbor::field_of(m, name) {
        Some(t) => match cbor::uint_of(t, u32::MAX as int) {
            Some(n) => Some(n as u32),
            None => None,
        },
        None => None,
    }
}

/// The 64-bit number that a record holds under a name.
pub open spec fn u64_field(m: Seq<(CborTree, CborTree)>, name: Seq<char>) -> Option<u64> {
    match cbor::field_of(m, name) {
        Some(t) => match cbor::uint_of(t, u64::MAX as int) {
            Some(n) => Some(n as u64),
            None => None,
        },
        None => None,
    }
}

/// The boolean that a record holds under a name.
pub open spec fn bool_field(m: Seq<(CborTree, CborTree)>, name: Seq<char>) -> Option<bool> {
    match cbor::field_of(m, name) {
        Some(t) => cbor::bool_of(t),
        None => None,
    }
}

/// The byte sequence that a record holds under a name.
pub open spec fn octets_field(m: Seq<(CborTree, CborTree)>, name: Seq<char>) -> Option<Seq<u8>> {
    match cbor::field_of(m, name) {
        Some(t) => cbor::octets_of(t),
        None => None,
    }
}

/// The number that a record holds under a name, which may also be missing or null.
pub open spec fn optional_u32_field(m: Seq<(CborTree, CborTree)>, name: Seq<char>) -> Option<
    Option<u32>,
> {
    let found = cbor::occurrences(m, name);
    if found.len() == 0 || (found.len() == 1 && found[0] is Null) {
        Some(None)
    } else {
        match u32_field(m, name) {
            Some(n) => Some(Some(n)),
            None => None,
        }
    }
}

fn get_text(m: &Fields<'_>, name: &str) -> (r: Option<String>)
    ensures
        match r {
            Some(s) => text_field(m@, name@) == Some(s@),
            None => text_field(m@, name@) is None,
        },
{
    match field(m, name) {
        Some(v) => read_text(v),
        None => None,
    }
}

fn get_u32(m: &Fields<'_>, name: &str) -> (r: Option<u32>)
    ensures
        r == u32_field(m@, name@),
{
    match field(m, name) {
        Some(v) => read_u32(v),
        None => None,
    }
}

fn get_u64(m: &Fields<'_>, name: &str) -> (r: Option<u64>)
    ensures
        r == u64_field(m@, name@),
{
    match field(m, name) {
        Some(v) => read_u64(v),
        None => None,
    }
}

fn get_bool(m: &Fields<'_>, name: &str) -> (r: Option<bool>)
    ensures
        r == bool_field(m@, name@),
{
    match field(m, name) {
        Some(v) => read_bool(v),
        None => None,
    }
}

fn get_octets(m: &Fields<'_>, name: &str) -> (r: Option<Vec<u8>>)
    ensures
        match r {
            Some(b) => octets_field(m@, name@) == Some(b@),
            None => octets_field(m@, name@) is None,
        },
{
    match field(m, name) {
        Some(v) => read_octets(v),
        None => None,
    }
}

fn get_optional_u32(m: &Fields<'_>, name: &str) -> (r: Option<Option<u32>>)
    ensures
        r == optional_u32_field(m@, name@),
{
    match lookup(m, name) {
        Field::Missing => Some(None),
        Field::Repeated => None,
        Field::Found(v) => match v {
            Value::Null => Some(None),
            _ => match read_u32(v) {
                Some(n) => Some(Some(n)),
                None => None,
            },
        },
    }
}

/// The name of a channel request, as it is written.
pub open spec fn request_name(r: ChannelRequestView) -> Seq<char> {
    match r {
        ChannelRequestView::PtyReq { .. } => "PtyReq"@,
        ChannelRequestView::Shell => "Shell"@,
        ChannelRequestView::Exec { .. } => "Exec"@,
        ChannelRequestView::Subsystem { .. } => "Subsystem"@,
        ChannelRequestView::WindowChange { .. } => "WindowChange"@,
        ChannelRequestView::Signal { .. } => "Signal"@,
        ChannelRequestView::ExitStatus { .. } => "ExitStatus"@,
        ChannelRequestView::ExitSignal { .. } => "ExitSignal"@,
        ChannelRequestView::Env { .. } => "Env"@,
    }
}

/// The fields of a channel request, as they are written.
pub open spec fn request_fields(r: ChannelRequestView) -> Seq<(Seq<char>, CborTree)> {
    match r {
        ChannelRequestView::PtyReq { term, width_chars, height_rows, width_px, height_px, modes } => seq![
            ("term"@, CborTree::Text(term)),
            ("width_chars"@, cbor::uint_tree(width_chars as int)),
            ("height_rows"@, cbor::uint_tree(height_rows as int)),
            ("width_px"@, cbor::uint_tree(width_px as int)),
            ("height_px"@, cbor::uint_tree(height_px as int)),
            ("modes"@, cbor::octets_tree(modes)),
        ],
        ChannelRequestView::Shell => Seq::empty(),
        ChannelRequestView::Exec { command } => seq![
            ("command"@, CborTree::Text(command)),
        ],
        ChannelRequestView::Subsystem { subsystem } => seq![
            ("subsystem"@, CborTree::Text(subsystem)),
        ],
        ChannelRequestView::WindowChange { width_chars, height_rows, width_px, height_px } => seq![
            ("width_chars"@, cbor::uint_tree(width_chars as int)),
            ("height_rows"@, cbor::uint_tree(height_rows as int)),
            ("width_px"@, cbor::uint_tree(width_px as int)),
            ("height_px"@, cbor::uint_tree(height_px as int)),
        ],
        ChannelRequestView::Signal { signal } => seq![
            ("signal"@, CborTree::Text(signal)),
        ],
        ChannelRequestView::ExitStatus { exit_status } => seq![
            ("exit_status"@, cbor::uint_tree(exit_status as int)),
        ],
        ChannelRequestView::ExitSignal { signal, core_dumped, error_message, language_tag } => seq![
            ("signal"@, CborTree::Text(signal)),
            ("core_dumped"@, CborTree::Bool(core_dumped)),
            ("error_message"@, CborTree::Text(error_message)),
            ("language_tag"@, CborTree::Text(language_tag)),
        ],
        ChannelRequestView::Env { name, value } => seq![
            ("name"@, CborTree::Text(name)),
            ("value"@, CborTree::Text(value)),
        ],
    }
}

/// A channel request as a CBOR value.
pub open spec fn request_tree(r: ChannelRequestView) -> CborTree {
    if r is Shell {
        CborTree::Text(request_name(r))
    } else {
        cbor::record_tree(seq![(request_name(r), cbor::record_tree(request_fields(r)))])
    }
}

/// A channel request with the given name, read from the fields of a record.
pub open spec fn request_from(name: Seq<char>, m: Seq<(CborTree, CborTree)>) -> Option<ChannelRequestView> {
    if name == "PtyReq"@ {
        if text_field(m, "term"@) is Some && u32_field(m, "width_chars"@) is Some && u32_field(m, "height_rows"@) is Some && u32_field(m, "width_px"@) is Some && u32_field(m, "height_px"@) is Some && octets_field(m, "modes"@) is Some {
            Some(ChannelRequestView::PtyReq { term: text_field(m, "term"@)->0, width_chars: u32_field(m, "width_chars"@)->0, height_rows: u32_field(m, "height_rows"@)->0, width_px: u32_field(m, "width_px"@)->0, height_px: u32_field(m, "height_px"@)->0, modes: octets_field(m, "modes"@)->0 })
        } else {
            None
        }
    } else if name == "Exec"@ {
        if text_field(m, "command"@) is Some {
            Some(ChannelRequestView::Exec { command: text_field(m, "command"@)->0 })
        } else {
            None
        }
    } else if name == "Subsystem"@ {
        if text_field(m, "subsystem"@) is Some {
            Some(ChannelRequestView::Subsystem { subsystem: text_field(m, "subsystem"@)->0 })
        } else {
            None
        }
    } else if name == "WindowChange"@ {
        if u32_field(m, "width_chars"@) is Some && u32_field(m, "height_rows"@) is Some && u32_field(m, "width_px"@) is Some && u32_field(m, "height_px"@) is Some {
            Some(ChannelRequestView::WindowChange { width_chars: u32_field(m, "width_chars"@)->0, height_rows: u32_field(m, "height_rows"@)->0, width_px: u32_field(m, "width_px"@)->0, height_px: u32_field(m, "height_px"@)->0 })
        } else {
            None
        }
    } else if name == "Signal"@ {
        if text_field(m, "signal"@) is Some {
            Some(ChannelRequestView::Signal { signal: text_field(m, "signal"@)->0 })
        } else {
            None
        }
    } else if name == "ExitStatus"@ {
        if u32_field(m, "exit_status"@) is Some {
            Some(ChannelRequestView::ExitStatus { exit_status: u32_field(m, "exit_status"@)->0 })
        } else {
            None
        }
    } else if name == "ExitSignal"@ {
        if text_field(m, "signal"@) is Some && bool_field(m, "core_dumped"@) is Some && text_field(m, "error_message"@) is Some && text_field(m, "language_tag"@) is Some {
            Some(ChannelRequestView::ExitSignal { signal: text_field(m, "signal"@)->0, core_dumped: bool_field(m, "core_dumped"@)->0, error_message: text_field(m, "error_message"@)->0, language_tag: text_field(m, "language_tag"@)->0 })
        } else {
            None
        }
    } else if name == "Env"@ {
        if text_field(m, "name"@) is Some && text_field(m, "value"@) is Some {
            Some(ChannelRequestView::Env { name: text_field(m, "name"@)->0, value: text_field(m, "value"@)->0 })
        } else {
            None
        }
    } else {
        None
    }
}

/// The names of the fields of a channel request, in the order of their declaration.
pub open spec fn request_field_names(name: Seq<char>) -> Seq<Seq<char>> {
    if name == "PtyReq"@ {
        seq!["term"@, "width_chars"@, "height_rows"@, "width_px"@, "height_px"@, "modes"@]
    } else if name == "Exec"@ {
        seq!["command"@]
    } else if name == "Subsystem"@ {
        seq!["subsystem"@]
    } else if name == "WindowChange"@ {
        seq!["width_chars"@, "height_rows"@, "width_px"@, "height_px"@]
    } else if name == "Signal"@ {
        seq!["signal"@]
    } else if name == "ExitStatus"@ {
        seq!["exit_status"@]
    } else if name == "ExitSignal"@ {
        seq!["signal"@, "core_dumped"@, "error_message"@, "language_tag"@]
    } else if name == "Env"@ {
        seq!["name"@, "value"@]
    } else {
        Seq::empty()
    }
}

/// A channel request that a CBOR value and the items behind it stand for, and the items
/// that are left.
pub open spec fn request_read(t: CborTree, next: Seq<CborTree>) -> Option<
    (ChannelRequestView, Seq<CborTree>),
> {
    match cbor::variant_of(t) {
        None => None,
        Some((name, held)) => {
            let items = cbor::behind_name(held, next);
            if name == "Shell"@ {
                Some((ChannelRequestView::Shell, items))
            } else if items.len() == 0 {
                None
            } else {
                match cbor::content_of(items[0], request_field_names(name)) {
                    None => None,
                    Some((m, unread)) => match request_from(name, m) {
                        None => None,
                        Some(r) => Some((r, unread + items.skip(1))),
                    },
                }
            }
        },
    }
}

/// Puts a channel request together as a CBOR value.
fn request_value(r: &ChannelRequestType) -> (v: Value)
    ensures
        cbor::tree_of(v) == request_tree(r@),
{
    let (name, fields): (&str, Record) = match r {
        ChannelRequestType::PtyReq { term, width_chars, height_rows, width_px, height_px, modes } => ("PtyReq", Record::new().with("term", text_value(term.as_str())).with("width_chars", uint_value(*width_chars as u64)).with("height_rows", uint_value(*height_rows as u64)).with("width_px", uint_value(*width_px as u64)).with("height_px", uint_value(*height_px as u64)).with("modes", octets_value(modes.as_slice()))),
        ChannelRequestType::Shell => return text_value("Shell"),
        ChannelRequestType::Exec { command } => ("Exec", Record::new().with("command", text_value(command.as_str()))),
        ChannelRequestType::Subsystem { subsystem } => ("Subsystem", Record::new().with("subsystem", text_value(subsystem.as_str()))),
        ChannelRequestType::WindowChange { width_chars, height_rows, width_px, height_px } => ("WindowChange", Record::new().with("width_chars", uint_value(*width_chars as u64)).with("height_rows", uint_value(*height_rows as u64)).with("width_px", uint_value(*width_px as u64)).with("height_px", uint_value(*height_px as u64))),
        ChannelRequestType::Signal { signal } => ("Signal", Record::new().with("signal", text_value(signal.as_str()))),
        ChannelRequestType::ExitStatus { exit_status } => ("ExitStatus", Record::new().with("exit_status", uint_value(*exit_status as u64))),
        ChannelRequestType::ExitSignal { signal, core_dumped, error_message, language_tag } => ("ExitSignal", Record::new().with("signal", text_value(signal.as_str())).with("core_dumped", Value::Bool(*core_dumped)).with("error_message", text_value(error_message.as_str())).with("language_tag", text_value(language_tag.as_str()))),
        ChannelRequestType::Env { name, value } => ("Env", Record::new().with("name", text_value(name.as_str())).with("value", text_value(value.as_str()))),
    };
    assert(fields.fields() =~= request_fields(r@));
    let inner = fields.into_value();
    let outer = Record::new().with(name, inner);
    assert(outer.fields() =~= seq![(request_name(r@), cbor::record_tree(request_fields(r@)))]);
    outer.into_value()
}

/// The names of the fields of a channel request.
fn field_names_of_request(name: &str) -> (r: Vec<&'static str>)
    ensures
        cbor::texts(r@) == request_field_names(name@),
{
    let names: Vec<&'static str> = if same_text(name, "PtyReq") {
        vec!["term", "width_chars", "height_rows", "width_px", "height_px", "modes"]
    } else if same_text(name, "Exec") {
        vec!["command"]
    } else if same_text(name, "Subsystem") {
        vec!["subsystem"]
    } else if same_text(name, "WindowChange") {
        vec!["width_chars", "height_rows", "width_px", "height_px"]
    } else if same_text(name, "Signal") {
        vec!["signal"]
    } else if same_text(name, "ExitStatus") {
        vec!["exit_status"]
    } else if same_text(name, "ExitSignal") {
        vec!["signal", "core_dumped", "error_message", "language_tag"]
    } else if same_text(name, "Env") {
        vec!["name", "value"]
    } else {
        Vec::new()
    };
    assert(cbor::texts(names@) =~= request_field_names(name@));
    names
}

/// Reads a channel request from a CBOR value and the items behind it.
fn read_request<'a>(v: &'a Value, next: Vec<&'a Value>) -> (r: Option<
    (ChannelRequestType, Vec<&'a Value>),
>)
    ensures
        match r {
            Some((x, rest)) => request_read(cbor::tree_of(*v), cbor::trees(next@)) == Some(
                (x@, cbor::trees(rest@)),
            ),
            None => request_read(cbor::tree_of(*v), cbor::trees(next@)) is None,
        },
{
    match read_variant(v) {
        None => None,
        Some((name, held)) => {
            let items = items_behind_name(held, next);
            if same_text(name.as_str(), "Shell") {
                Some((ChannelRequestType::Shell, items))
            } else if items.len() == 0 {
                None
            } else {
                match content(items[0], field_names_of_request(name.as_str())) {
                    None => None,
                    Some((m, unread)) => match read_request_fields(name.as_str(), &m) {
                        None => None,
                        Some(x) => Some((x, unread_then(unread, items))),
                    },
                }
            }
        },
    }
}

/// Reads the fields of a channel request.
fn read_request_fields(name: &str, m: &Fields<'_>) -> (r: Option<ChannelRequestType>)
    ensures
        match r {
            Some(x) => request_from(name@, m@) == Some(x@),
            None => request_from(name@, m@) is None,
        },
{
    if same_text(name, "PtyReq") {
        match (get_text(m, "term"), get_u32(m, "width_chars"), get_u32(m, "height_rows"), get_u32(m, "width_px"), get_u32(m, "height_px"), get_octets(m, "modes")) {
            (Some(term), Some(width_chars), Some(height_rows), Some(width_px), Some(height_px), Some(modes)) => Some(ChannelRequestType::PtyReq { term, width_chars, height_rows, width_px, height_px, modes }),
            _ => None,
        }
    } else if same_text(name, "Exec") {
        match get_text(m, "command") {
            Some(command) => Some(ChannelRequestType::Exec { command }),
            _ => None,
        }
    } else if same_text(name, "Subsystem") {
        match get_text(m, "subsystem") {
            Some(subsystem) => Some(ChannelRequestType::Subsystem { subsystem }),
            _ => None,
        }
    } else if same_text(name, "WindowChange") {
        match (get_u32(m, "width_chars"), get_u32(m, "height_rows"), get_u32(m, "width_px"), get_u32(m, "height_px")) {
            (Some(width_chars), Some(height_rows), Some(width_px), Some(height_px)) => Some(ChannelRequestType::WindowChange { width_chars, height_rows, width_px, height_px }),
            _ => None,
        }
    } else if same_text(name, "Signal") {
        match get_text(m, "signal") {
            Some(signal) => Some(ChannelRequestType::Signal { signal }),
            _ => None,
        }
    } else if same_text(name, "ExitStatus") {
        match get_u32(m, "exit_status") {
            Some(exit_status) => Some(ChannelRequestType::ExitStatus { exit_status }),
            _ => None,
        }
    } else if same_text(name, "ExitSignal") {
        match (get_text(m, "signal"), get_bool(m, "core_dumped"), get_text(m, "error_message"), get_text(m, "language_tag")) {
            (Some(signal), Some(core_dumped), Some(error_message), Some(language_tag)) => Some(ChannelRequestType::ExitSignal { signal, core_dumped, error_message, language_tag }),
            _ => None,
        }
    } else if same_text(name, "Env") {
        match (get_text(m, "name"), get_text(m, "value")) {
            (Some(name), Some(value)) => Some(ChannelRequestType::Env { name, value }),
            _ => None,
        }
    } else {
        None
    }
}

/// Reading back what was written for a channel request.
pub proof fn lemma_request_roundtrip(r: ChannelRequestView, next: Seq<CborTree>)
    ensures
        request_read(request_tree(r), next) == Some((r, next)),
        cbor::is_plain(request_tree(r), 3),
{
    lemma_request_names();
    let fields = request_fields(r);
    let inner = cbor::record_tree(fields);
    let m = inner->Entries_0;
    lemma_request_distinct(r);
    cbor::lemma_record(fields);
    assert(Seq::<CborTree>::empty() + (seq![inner] + next).skip(1) =~= next);
    assert forall|k: int| 0 <= k < fields.len() implies cbor::field_of(m, (#[trigger] fields[k]).0) == Some(fields[k].1) by {
        cbor::lemma_record_field(fields, k);
    }
    assert forall|k: int| 0 <= k < fields.len() implies cbor::is_plain((#[trigger] fields[k]).1, 1) by {
        if let ChannelRequestView::PtyReq { modes, .. } = r {
            cbor::lemma_octets_roundtrip(modes);
        }
    }
    cbor::lemma_record_plain(fields, 1);
    let outer = seq![(request_name(r), inner)];
    assert forall|k: int| 0 <= k < outer.len() implies cbor::is_plain((#[trigger] outer[k]).1, 2) by {}
    cbor::lemma_record_plain(outer, 2);
    match r {
        ChannelRequestView::PtyReq { term, width_chars, height_rows, width_px, height_px, modes } => {
            assert(fields[0] == ("term"@, CborTree::Text(term)));
            assert(fields[1] == ("width_chars"@, cbor::uint_tree(width_chars as int)));
            assert(fields[2] == ("height_rows"@, cbor::uint_tree(height_rows as int)));
            assert(fields[3] == ("width_px"@, cbor::uint_tree(width_px as int)));
            assert(fields[4] == ("height_px"@, cbor::uint_tree(height_px as int)));
            assert(fields[5] == ("modes"@, cbor::octets_tree(modes)));
            cbor::lemma_octets_roundtrip(modes);
        },
        ChannelRequestView::Shell => {},
        ChannelRequestView::Exec { command } => {
            assert(fields[0] == ("command"@, CborTree::Text(command)));
        },
        ChannelRequestView::Subsystem { subsystem } => {
            assert(fields[0] == ("subsystem"@, CborTree::Text(subsystem)));
        },
        ChannelRequestView::WindowChange { width_chars, height_rows, width_px, height_px } => {
            assert(fields[0] == ("width_chars"@, cbor::uint_tree(width_chars as int)));
            assert(fields[1] == ("height_rows"@, cbor::uint_tree(height_rows as int)));
            assert(fields[2] == ("width_px"@, cbor::uint_tree(width_px as int)));
            assert(fields[3] == ("height_px"@, cbor::uint_tree(height_px as int)));
        },
        ChannelRequestView::Signal { signal } => {
            assert(fields[0] == ("signal"@, CborTree::Text(signal)));
        },
        ChannelRequestView::ExitStatus { exit_status } => {
            assert(fields[0] == ("exit_status"@, cbor::uint_tree(exit_status as int)));
        },
        ChannelRequestView::ExitSignal { signal, core_dumped, error_message, language_tag } => {
            assert(fields[0] == ("signal"@, CborTree::Text(signal)));
            assert(fields[1] == ("core_dumped"@, CborTree::Bool(core_dumped)));
            assert(fields[2] == ("error_message"@, CborTree::Text(error_message)));
            assert(fields[3] == ("language_tag"@, CborTree::Text(language_tag)));
        },
        ChannelRequestView::Env { name, value } => {
            assert(fields[0] == ("name"@, CborTree::Text(name)));
            assert(fields[1] == ("value"@, CborTree::Text(value)));
        },
    }
}

proof fn lemma_request_names()
    ensures
        "PtyReq"@ != "Exec"@,
        "PtyReq"@ != "Subsystem"@,
        "PtyReq"@ != "WindowChange"@,
        "PtyReq"@ != "Signal"@,
        "PtyReq"@ != "ExitStatus"@,
        "PtyReq"@ != "ExitSignal"@,
        "PtyReq"@ != "Env"@,
        "Exec"@ != "Subsystem"@,
        "Exec"@ != "WindowChange"@,
        "Exec"@ != "Signal"@,
        "Exec"@ != "ExitStatus"@,
        "Exec"@ != "ExitSignal"@,
        "Exec"@ != "Env"@,
        "Subsystem"@ != "WindowChange"@,
        "Subsystem"@ != "Signal"@,
        "Subsystem"@ != "ExitStatus"@,
        "Subsystem"@ != "ExitSignal"@,
        "Subsystem"@ != "Env"@,
        "WindowChange"@ != "Signal"@,
        "WindowChange"@ != "ExitStatus"@,
        "WindowChange"@ != "ExitSignal"@,
        "WindowChange"@ != "Env"@,
        "Signal"@ != "ExitStatus"@,
        "Signal"@ != "ExitSignal"@,
        "Signal"@ != "Env"@,
        "ExitStatus"@ != "ExitSignal"@,
        "ExitStatus"@ != "Env"@,
        "ExitSignal"@ != "Env"@,
        "Shell"@ != "PtyReq"@,
        "Shell"@ != "Exec"@,
        "Shell"@ != "Subsystem"@,
        "Shell"@ != "WindowChange"@,
        "Shell"@ != "Signal"@,
        "Shell"@ != "ExitStatus"@,
        "Shell"@ != "ExitSignal"@,
        "Shell"@ != "Env"@,
{
    reveal_strlit("Shell");
    assert("Shell"@.len() == 5);
    reveal_strlit("PtyReq");
    reveal_strlit("Exec");
    reveal_strlit("Subsystem");
    reveal_strlit("WindowChange");
    reveal_strlit("Signal");
    reveal_strlit("ExitStatus");
    reveal_strlit("ExitSignal");
    reveal_strlit("Env");
    assert("PtyReq"@.len() != "Exec"@.len());
    assert("PtyReq"@.len() != "Subsystem"@.len());
    assert("PtyReq"@.len() != "WindowChange"@.len());
    assert("PtyReq"@[0] != "Signal"@[0]);
    assert("PtyReq"@.len() != "ExitStatus"@.len());
    assert("PtyReq"@.len() != "ExitSignal"@.len());
    assert("PtyReq"@.len() != "Env"@.len());
    assert("Exec"@.len() != "Subsystem"@.len());
    assert("Exec"@.len() != "WindowChange"@.len());
    assert("Exec"@.len() != "Signal"@.len());
    assert("Exec"@.len() != "ExitStatus"@.len());
    assert("Exec"@.len() != "ExitSignal"@.len());
    assert("Exec"@.len() != "Env"@.len());
    assert("Subsystem"@.len() != "WindowChange"@.len());
    assert("Subsystem"@.len() != "Signal"@.len());
    assert("Subsystem"@.len() != "ExitStatus"@.len());
    assert("Subsystem"@.len() != "ExitSignal"@.len());
    assert("Subsystem"@.len() != "Env"@.len());
    assert("WindowChange"@.len() != "Signal"@.len());
    assert("WindowChange"@.len() != "ExitStatus"@.len());
    assert("WindowChange"@.len() != "ExitSignal"@.len());
    assert("WindowChange"@.len() != "Env"@.len());
    assert("Signal"@.len() != "ExitStatus"@.len());
    assert("Signal"@.len() != "ExitSignal"@.len());
    assert("Signal"@.len() != "Env"@.len());
    assert("ExitStatus"@[5] != "ExitSignal"@[5]);
    assert("ExitStatus"@.len() != "Env"@.len());
    assert("ExitSignal"@.len() != "Env"@.len());
}

proof fn lemma_request_distinct(r: ChannelRequestView)
    ensures
        cbor::distinct_names(request_fields(r)),
        cbor::short_names(request_fields(r)),
{
    reveal_strlit("command");
    reveal_strlit("subsystem");
    reveal_strlit("exit_status");
    reveal_strlit("term");
    reveal_strlit("width_chars");
    reveal_strlit("height_rows");
    reveal_strlit("width_px");
    reveal_strlit("height_px");
    reveal_strlit("modes");
    reveal_strlit("signal");
    reveal_strlit("core_dumped");
    reveal_strlit("error_message");
    reveal_strlit("language_tag");
    reveal_strlit("name");
    reveal_strlit("value");
    assert("term"@.len() != "width_chars"@.len());
    assert("term"@.len() != "height_rows"@.len());
    assert("term"@.len() != "width_px"@.len());
    assert("term"@.len() != "height_px"@.len());
    assert("term"@.len() != "modes"@.len());
    assert("width_chars"@[0] != "height_rows"@[0]);
    assert("width_chars"@.len() != "width_px"@.len());
    assert("width_chars"@.len() != "height_px"@.len());
    assert("width_chars"@.len() != "modes"@.len());
    assert("height_rows"@.len() != "width_px"@.len());
    assert("height_rows"@.len() != "height_px"@.len());
    assert("height_rows"@.len() != "modes"@.len());
    assert("width_px"@.len() != "height_px"@.len());
    assert("width_px"@.len() != "modes"@.len());
    assert("height_px"@.len() != "modes"@.len());
    assert("signal"@.len() != "core_dumped"@.len());
    assert("signal"@.len() != "error_message"@.len());
    assert("signal"@.len() != "language_tag"@.len());
    assert("core_dumped"@.len() != "error_message"@.len());
    assert("core_dumped"@.len() != "language_tag"@.len());
    assert("error_message"@.len() != "language_tag"@.len());
    assert("name"@.len() != "value"@.len());
}

/// The name of a global request, as it is written.
pub open spec fn global_name(r: GlobalRequestView) -> Seq<char> {
    match r {
        GlobalRequestView::TcpipForward { .. } => "TcpipForward"@,
        GlobalRequestView::CancelTcpipForward { .. } => "CancelTcpipForward"@,
        GlobalRequestView::StreamlocalForward { .. } => "StreamlocalForward"@,
        GlobalRequestView::CancelStreamlocalForward { .. } => "CancelStreamlocalForward"@,
    }
}

/// The fields of a global request, as they are written.
pub open spec fn global_fields(r: GlobalRequestView) -> Seq<(Seq<char>, CborTree)> {
    match r {
        GlobalRequestView::TcpipForward { bind_host, bind_port } => seq![
            ("bind_host"@, CborTree::Text(bind_host)),
            ("bind_port"@, cbor::uint_tree(bind_port as int)),
        ],
        GlobalRequestView::CancelTcpipForward { bind_host, bind_port } => seq![
            ("bind_host"@, CborTree::Text(bind_host)),
            ("bind_port"@, cbor::uint_tree(bind_port as int)),
        ],
        GlobalRequestView::StreamlocalForward { socket_path } => seq![
            ("socket_path"@, CborTree::Text(socket_path)),
        ],
        GlobalRequestView::CancelStreamlocalForward { socket_path } => seq![
            ("socket_path"@, CborTree::Text(socket_path)),
        ],
    }
}

/// A global request as a CBOR value.
pub open spec fn global_tree(r: GlobalRequestView) -> CborTree {
    cbor::record_tree(seq![(global_name(r), cbor::record_tree(global_fields(r)))])
}

/// A global request with the given name, read from the fields of a record.
pub open spec fn global_from(name: Seq<char>, m: Seq<(CborTree, CborTree)>) -> Option<GlobalRequestView> {
    if name == "TcpipForward"@ {
        if text_field(m, "bind_host"@) is Some && u32_field(m, "bind_port"@) is Some {
            Some(GlobalRequestView::TcpipForward { bind_host: text_field(m, "bind_host"@)->0, bind_port: u32_field(m, "bind_port"@)->0 })
        } else {
            None
        }
    } else if name == "CancelTcpipForward"@ {
        if text_field(m, "bind_host"@) is Some && u32_field(m, "bind_port"@) is Some {
            Some(GlobalRequestView::CancelTcpipForward { bind_host: text_field(m, "bind_host"@)->0, bind_port: u32_field(m, "bind_port"@)->0 })
        } else {
            None
        }
    } else if name == "StreamlocalForward"@ {
        if text_field(m, "socket_path"@) is Some {
            Some(GlobalRequestView::StreamlocalForward { socket_path: text_field(m, "socket_path"@)->0 })
        } else {
            None
        }
    } else if name == "CancelStreamlocalForward"@ {
        if text_field(m, "socket_path"@) is Some {
            Some(GlobalRequestView::CancelStreamlocalForward { socket_path: text_field(m, "socket_path"@)->0 })
        } else {
            None
        }
    } else {
        None
    }
}

/// The names of the fields of a global request, in the order of their declaration.
pub open spec fn global_field_names(name: Seq<char>) -> Seq<Seq<char>> {
    if name == "TcpipForward"@ {
        seq!["bind_host"@, "bind_port"@]
    } else if name == "CancelTcpipForward"@ {
        seq!["bind_host"@, "bind_port"@]
    } else if name == "StreamlocalForward"@ {
        seq!["socket_path"@]
    } else if name == "CancelStreamlocalForward"@ {
        seq!["socket_path"@]
    } else {
        Seq::empty()
    }
}

/// A global request that a CBOR value and the items behind it stand for, and the items
/// that are left.
pub open spec fn global_read(t: CborTree, next: Seq<CborTree>) -> Option<
    (GlobalRequestView, Seq<CborTree>),
> {
    match cbor::variant_of(t) {
        None => None,
        Some((name, held)) => {
            let items = cbor::behind_name(held, next);
            if items.len() == 0 {
                None
            } else {
                match cbor::content_of(items[0], global_field_names(name)) {
                    None => None,
                    Some((m, unread)) => match global_from(name, m) {
                        None => None,
                        Some(r) => Some((r, unread + items.skip(1))),
                    },
                }
            }
        },
    }
}

/// Puts a global request together as a CBOR value.
fn global_value(r: &GlobalRequestType) -> (v: Value)
    ensures
        cbor::tree_of(v) == global_tree(r@),
{
    let (name, fields): (&str, Record) = match r {
        GlobalRequestType::TcpipForward { bind_host, bind_port } => ("TcpipForward", Record::new().with("bind_host", text_value(bind_host.as_str())).with("bind_port", uint_value(*bind_port as u64))),
        GlobalRequestType::CancelTcpipForward { bind_host, bind_port } => ("CancelTcpipForward", Record::new().with("bind_host", text_value(bind_host.as_str())).with("bind_port", uint_value(*bind_port as u64))),
        GlobalRequestType::StreamlocalForward { socket_path } => ("StreamlocalForward", Record::new().with("socket_path", text_value(socket_path.as_str()))),
        GlobalRequestType::CancelStreamlocalForward { socket_path } => ("CancelStreamlocalForward", Record::new().with("socket_path", text_value(socket_path.as_str()))),
    };
    assert(fields.fields() =~= global_fields(r@));
    let inner = fields.into_value();
    let outer = Record::new().with(name, inner);
    assert(outer.fields() =~= seq![(global_name(r@), cbor::record_tree(global_fields(r@)))]);
    outer.into_value()
}

/// The names of the fields of a global request.
fn field_names_of_global(name: &str) -> (r: Vec<&'static str>)
    ensures
        cbor::texts(r@) == global_field_names(name@),
{
    let names: Vec<&'static str> = if same_text(name, "TcpipForward") {
        vec!["bind_host", "bind_port"]
    } else if same_text(name, "CancelTcpipForward") {
        vec!["bind_host", "bind_port"]
    } else if same_text(name, "StreamlocalForward") {
        vec!["socket_path"]
    } else if same_text(name, "CancelStreamlocalForward") {
        vec!["socket_path"]
    } else {
        Vec::new()
    };
    assert(cbor::texts(names@) =~= global_field_names(name@));
    names
}

/// Reads a global request from a CBOR value and the items behind it.
fn read_global<'a>(v: &'a Value, next: Vec<&'a Value>) -> (r: Option<
    (GlobalRequestType, Vec<&'a Value>),
>)
    ensures
        match r {
            Some((x, rest)) => global_read(cbor::tree_of(*v), cbor::trees(next@)) == Some(
                (x@, cbor::trees(rest@)),
            ),
            None => global_read(cbor::tree_of(*v), cbor::trees(next@)) is None,
        },
{
    match read_variant(v) {
        None => None,
        Some((name, held)) => {
            let items = items_behind_name(held, next);
            if items.len() == 0 {
                None
            } else {
                match content(items[0], field_names_of_global(name.as_str())) {
                    None => None,
                    Some((m, unread)) => match read_global_fields(name.as_str(), &m) {
                        None => None,
                        Some(x) => Some((x, unread_then(unread, items))),
                    },
                }
            }
        },
    }
}

/// Reads the fields of a global request.
fn read_global_fields(name: &str, m: &Fields<'_>) -> (r: Option<GlobalRequestType>)
    ensures
        match r {
            Some(x) => global_from(name@, m@) == Some(x@),
            None => global_from(name@, m@) is None,
        },
{
    if same_text(name, "TcpipForward") {
        match (get_text(m, "bind_host"), get_u32(m, "bind_port")) {
            (Some(bind_host), Some(bind_port)) => Some(GlobalRequestType::TcpipForward { bind_host, bind_port }),
            _ => None,
        }
    } else if same_text(name, "CancelTcpipForward") {
        match (get_text(m, "bind_host"), get_u32(m, "bind_port")) {
            (Some(bind_host), Some(bind_port)) => Some(GlobalRequestType::CancelTcpipForward { bind_host, bind_port }),
            _ => None,
        }
    } else if same_text(name, "StreamlocalForward") {
        match get_text(m, "socket_path") {
            Some(socket_path) => Some(GlobalRequestType::StreamlocalForward { socket_path }),
            _ => None,
        }
    } else if same_text(name, "CancelStreamlocalForward") {
        match get_text(m, "socket_path") {
            Some(socket_path) => Some(GlobalRequestType::CancelStreamlocalForward { socket_path }),
            _ => None,
        }
    } else {
        None
    }
}

/// Reading back what was written for a global request.
pub proof fn lemma_global_roundtrip(r: GlobalRequestView, next: Seq<CborTree>)
    ensures
        global_read(global_tree(r), next) == Some((r, next)),
        cbor::is_plain(global_tree(r), 3),
{
    lemma_global_names();
    let fields = global_fields(r);
    let inner = cbor::record_tree(fields);
    let m = inner->Entries_0;
    lemma_global_distinct(r);
    cbor::lemma_record(fields);
    assert(Seq::<CborTree>::empty() + (seq![inner] + next).skip(1) =~= next);
    assert forall|k: int| 0 <= k < fields.len() implies cbor::field_of(m, (#[trigger] fields[k]).0) == Some(fields[k].1) by {
        cbor::lemma_record_field(fields, k);
    }
    assert forall|k: int| 0 <= k < fields.len() implies cbor::is_plain((#[trigger] fields[k]).1, 1) by {
    }
    cbor::lemma_record_plain(fields, 1);
    let outer = seq![(global_name(r), inner)];
    assert forall|k: int| 0 <= k < outer.len() implies cbor::is_plain((#[trigger] outer[k]).1, 2) by {}
    cbor::lemma_record_plain(outer, 2);
    match r {
        GlobalRequestView::TcpipForward { bind_host, bind_port } => {
            assert(fields[0] == ("bind_host"@, CborTree::Text(bind_host)));
            assert(fields[1] == ("bind_port"@, cbor::uint_tree(bind_port as int)));
        },
        GlobalRequestView::CancelTcpipForward { bind_host, bind_port } => {
            assert(fields[0] == ("bind_host"@, CborTree::Text(bind_host)));
            assert(fields[1] == ("bind_port"@, cbor::uint_tree(bind_port as int)));
        },
        GlobalRequestView::StreamlocalForward { socket_path } => {
            assert(fields[0] == ("socket_path"@, CborTree::Text(socket_path)));
        },
        GlobalRequestView::CancelStreamlocalForward { socket_path } => {
            assert(fields[0] == ("socket_path"@, CborTree::Text(socket_path)));
        },
    }
}

proof fn lemma_global_names()
    ensures
        "TcpipForward"@ != "CancelTcpipForward"@,
        "TcpipForward"@ != "StreamlocalForward"@,
        "TcpipForward"@ != "CancelStreamlocalForward"@,
        "CancelTcpipForward"@ != "StreamlocalForward"@,
        "CancelTcpipForward"@ != "CancelStreamlocalForward"@,
        "StreamlocalForward"@ != "CancelStreamlocalForward"@,
{
    reveal_strlit("TcpipForward");
    reveal_strlit("CancelTcpipForward");
    reveal_strlit("StreamlocalForward");
    reveal_strlit("CancelStreamlocalForward");
    assert("TcpipForward"@.len() != "CancelTcpipForward"@.len());
    assert("TcpipForward"@.len() != "StreamlocalForward"@.len());
    assert("TcpipForward"@.len() != "CancelStreamlocalForward"@.len());
    assert("CancelTcpipForward"@[0] != "StreamlocalForward"@[0]);
    assert("CancelTcpipForward"@.len() != "CancelStreamlocalForward"@.len());
    assert("StreamlocalForward"@.len() != "CancelStreamlocalForward"@.len());
}

proof fn lemma_global_distinct(r: GlobalRequestView)
    ensures
        cbor::distinct_names(global_fields(r)),
        cbor::short_names(global_fields(r)),
{
    reveal_strlit("socket_path");
    reveal_strlit("bind_host");
    reveal_strlit("bind_port");
    assert("bind_host"@[5] != "bind_port"@[5]);
}

/// Asks for a new channel.
#[derive(Debug, Clone, PartialEq, Eq)]
pub struct ChannelOpenMsg {
    pub channel_type: ChannelType,
    pub maximum_message_size: u64,
}

/// Accepts a new channel.
#[derive(Debug, Clone, PartialEq, Eq)]
pub struct ChannelOpenConfirmationMsg {
    pub maximum_message_size: u64,
}

/// Why a channel was not opened.
#[derive(Debug, Clone, Copy, PartialEq, Eq, Structural)]
pub enum ChannelOpenFailureReason {
    AdministrativelyProhibited,
    ConnectFailed,
    UnknownChannelType,
    ResourceShortage,
}

impl ChannelOpenFailureReason {
    /// The number of the reason on the wire.
    pub open spec fn number(self) -> u32 {
        match self {
            ChannelOpenFailureReason::AdministrativelyProhibited => 1,
            ChannelOpenFailureReason::ConnectFailed => 2,
            ChannelOpenFailureReason::UnknownChannelType => 3,
            ChannelOpenFailureReason::ResourceShortage => 4,
        }
    }

    /// The number of the reason on the wire.
    pub fn code(self) -> (r: u32)
        ensures
            r == self.number(),
    {
        match self {
            ChannelOpenFailureReason::AdministrativelyProhibited => 1,
            ChannelOpenFailureReason::ConnectFailed => 2,
            ChannelOpenFailureReason::UnknownChannelType => 3,
            ChannelOpenFailureReason::ResourceShortage => 4,
        }
    }
}

/// Refuses a new channel.
#[derive(Debug, Clone, PartialEq, Eq)]
pub struct ChannelOpenFailureMsg {
    pub reason_code: u32,
    pub description: String,
}

/// Allows the peer to send more.
#[derive(Debug, Clone, PartialEq, Eq)]
pub struct ChannelWindowAdjustMsg {
    pub bytes_to_add: u64,
}

/// Carries data.
#[derive(Debug, Clone, PartialEq, Eq)]
pub struct ChannelDataMsg {
    pub data: Vec<u8>,
}

impl ChannelDataMsg {
    /// A message that carries the given data.
    pub fn new(data: Vec<u8>) -> (r: Self)
        ensures
            r.data == data,
    {
        ChannelDataMsg { data }
    }

    /// A copy of the data.
    pub fn bytes(&self) -> (r: bytes::Bytes)
        ensures
            outside::bytes_content(r) == self.data@,
    {
        bytes_copy_from_slice(self.data.as_slice())
    }
}

/// Carries data of another stream, such as standard error.
#[derive(Debug, Clone, PartialEq, Eq)]
pub struct ChannelExtendedDataMsg {
    pub data_type_code: u32,
    pub data: Vec<u8>,
}

impl ChannelExtendedDataMsg {
    /// The stream of standard error.
    pub const STDERR: u32 = 1;
}

/// No more data will be sent.
#[derive(Debug, Clone, PartialEq, Eq)]
pub struct ChannelEOFMsg {}

/// The channel is closed.
#[derive(Debug, Clone, PartialEq, Eq)]
pub struct ChannelCloseMsg {}

/// Asks for a service on the channel.
#[derive(Debug, Clone, PartialEq, Eq)]
pub struct ChannelRequestMsg {
    pub want_reply: bool,
    pub request: ChannelRequestType,
}

/// The request was granted.
#[derive(Debug, Clone, PartialEq, Eq)]
pub struct ChannelSuccessMsg {}

/// The request was refused.
#[derive(Debug, Clone, PartialEq, Eq)]
pub struct ChannelFailureMsg {}

/// Asks for a service outside any channel.
#[derive(Debug, Clone, PartialEq, Eq)]
pub struct GlobalRequestMsg {
    pub want_reply: bool,
    pub request: GlobalRequestType,
}

/// Answers a global request.
#[derive(Debug, Clone, PartialEq, Eq)]
pub struct GlobalReplyMsg {
    pub success: bool,
    pub bound_port: Option<u32>,
}

impl Default for ChannelEOFMsg {
    fn default() -> (r: Self)
        ensures
            r == (ChannelEOFMsg {  }),
    {
        ChannelEOFMsg {  }
    }
}

impl Default for ChannelCloseMsg {
    fn default() -> (r: Self)
        ensures
            r == (ChannelCloseMsg {  }),
    {
        ChannelCloseMsg {  }
    }
}

impl Default for ChannelSuccessMsg {
    fn default() -> (r: Self)
        ensures
            r == (ChannelSuccessMsg {  }),
    {
        ChannelSuccessMsg {  }
    }
}

impl Default for ChannelFailureMsg {
    fn default() -> (r: Self)
        ensures
            r == (ChannelFailureMsg {  }),
    {
        ChannelFailureMsg {  }
    }
}

/// The message type of a global request.
pub const MSG_GLOBAL_REQUEST: u8 = 80;

/// The message type of the answer to a global request.
pub const MSG_GLOBAL_REPLY: u8 = 81;

/// A message.
#[derive(Debug, Clone, PartialEq, Eq)]
pub enum SshMessage {
    ChannelOpen(ChannelOpenMsg),
    ChannelOpenConfirmation(ChannelOpenConfirmationMsg),
    ChannelOpenFailure(ChannelOpenFailureMsg),
    ChannelWindowAdjust(ChannelWindowAdjustMsg),
    ChannelData(ChannelDataMsg),
    ChannelExtendedData(ChannelExtendedDataMsg),
    ChannelEOF(ChannelEOFMsg),
    ChannelClose(ChannelCloseMsg),
    ChannelRequest(ChannelRequestMsg),
    ChannelSuccess(ChannelSuccessMsg),
    ChannelFailure(ChannelFailureMsg),
    GlobalRequest(GlobalRequestMsg),
    GlobalReply(GlobalReplyMsg),
}

/// What a `SshMessage` says.
pub enum SshMessageView {
    ChannelOpen { channel_type: ChannelTypeView, maximum_message_size: u64 },
    ChannelOpenConfirmation { maximum_message_size: u64 },
    ChannelOpenFailure { reason_code: u32, description: Seq<char> },
    ChannelWindowAdjust { bytes_to_add: u64 },
    ChannelData { data: Seq<u8> },
    ChannelExtendedData { data_type_code: u32, data: Seq<u8> },
    ChannelEOF,
    ChannelClose,
    ChannelRequest { want_reply: bool, request: ChannelRequestView },
    ChannelSuccess,
    ChannelFailure,
    GlobalRequest { want_reply: bool, request: GlobalRequestView },
    GlobalReply { success: bool, bound_port: Option<u32> },
}

impl View for SshMessage {
    type V = SshMessageView;

    open spec fn view(&self) -> SshMessageView {
        match self {
            SshMessage::ChannelOpen(m) => SshMessageView::ChannelOpen {
                channel_type: m.channel_type@,
                maximum_message_size: m.maximum_message_size,
            },
            SshMessage::ChannelOpenConfirmation(m) => SshMessageView::ChannelOpenConfirmation {
                maximum_message_size: m.maximum_message_size,
            },
            SshMessage::ChannelOpenFailure(m) => SshMessageView::ChannelOpenFailure {
                reason_code: m.reason_code,
                description: m.description@,
            },
            SshMessage::ChannelWindowAdjust(m) => SshMessageView::ChannelWindowAdjust {
                bytes_to_add: m.bytes_to_add,
            },
            SshMessage::ChannelData(m) => SshMessageView::ChannelData { data: m.data@ },
            SshMessage::ChannelExtendedData(m) => SshMessageView::ChannelExtendedData {
                data_type_code: m.data_type_code,
                data: m.data@,
            },
            SshMessage::ChannelEOF(_) => SshMessageView::ChannelEOF,
            SshMessage::ChannelClose(_) => SshMessageView::ChannelClose,
            SshMessage::ChannelRequest(m) => SshMessageView::ChannelRequest {
                want_reply: m.want_reply,
                request: m.request@,
            },
            SshMessage::ChannelSuccess(_) => SshMessageView::ChannelSuccess,
            SshMessage::ChannelFailure(_) => SshMessageView::ChannelFailure,
            SshMessage::GlobalRequest(m) => SshMessageView::GlobalRequest {
                want_reply: m.want_reply,
                request: m.request@,
            },
            SshMessage::GlobalReply(m) => SshMessageView::GlobalReply {
                success: m.success,
                bound_port: m.bound_port,
            },
        }
    }
}

/// The type of a message.
pub open spec fn type_of_message(m: SshMessageView) -> u8 {
    match m {
        SshMessageView::ChannelOpen { .. } => 90,
        SshMessageView::ChannelOpenConfirmation { .. } => 91,
        SshMessageView::ChannelOpenFailure { .. } => 92,
        SshMessageView::ChannelWindowAdjust { .. } => 93,
        SshMessageView::ChannelData { .. } => 94,
        SshMessageView::ChannelExtendedData { .. } => 95,
        SshMessageView::ChannelEOF => 96,
        SshMessageView::ChannelClose => 97,
        SshMessageView::ChannelRequest { .. } => 98,
        SshMessageView::ChannelSuccess => 99,
        SshMessageView::ChannelFailure => 100,
        SshMessageView::GlobalRequest { .. } => 80,
        SshMessageView::GlobalReply { .. } => 81,
    }
}

/// Some message has this type.
pub open spec fn is_message_type(kind: u8) -> bool {
    90 <= kind <= 100 || kind == 80 || kind == 81
}

/// The kind of a channel as a CBOR value.
pub open spec fn channel_type_tree(t: ChannelTypeView) -> CborTree {
    match t {
        ChannelTypeView::Session => CborTree::Text("Session"@),
        ChannelTypeView::DirectTcp => CborTree::Text("DirectTcp"@),
        ChannelTypeView::ReverseTcp => CborTree::Text("ReverseTcp"@),
        ChannelTypeView::DirectUdp => CborTree::Text("DirectUdp"@),
        ChannelTypeView::ReverseUdp => CborTree::Text("ReverseUdp"@),
        ChannelTypeView::Other(s) => cbor::record_tree(seq![("Other"@, CborTree::Text(s))]),
    }
}

/// The kind of a channel that is written as this name.
pub open spec fn channel_type_written_as(name: Seq<char>) -> Option<ChannelTypeView> {
    if name == "Session"@ {
        Some(ChannelTypeView::Session)
    } else if name == "DirectTcp"@ {
        Some(ChannelTypeView::DirectTcp)
    } else if name == "ReverseTcp"@ {
        Some(ChannelTypeView::ReverseTcp)
    } else if name == "DirectUdp"@ {
        Some(ChannelTypeView::DirectUdp)
    } else if name == "ReverseUdp"@ {
        Some(ChannelTypeView::ReverseUdp)
    } else {
        None
    }
}

/// The kind of a channel that a CBOR value and the items behind it stand for, and the
/// items that are left.
pub open spec fn channel_type_read(t: CborTree, next: Seq<CborTree>) -> Option<
    (ChannelTypeView, Seq<CborTree>),
> {
    match cbor::variant_of(t) {
        None => None,
        Some((name, held)) => {
            let items = cbor::behind_name(held, next);
            if name == "Other"@ {
                if items.len() == 0 {
                    None
                } else {
                    match cbor::text_of(items[0]) {
                        Some(s) => Some((ChannelTypeView::Other(s), items.skip(1))),
                        None => None,
                    }
                }
            } else {
                match channel_type_written_as(name) {
                    Some(t) => Some((t, items)),
                    None => None,
                }
            }
        },
    }
}

/// The fields of a message, as they are written.
pub open spec fn body_fields(m: SshMessageView) -> Seq<(Seq<char>, CborTree)> {
    match m {
        SshMessageView::ChannelOpen { channel_type, maximum_message_size } => seq![
            ("channel_type"@, channel_type_tree(channel_type)),
            ("maximum_message_size"@, cbor::uint_tree(maximum_message_size as int)),
        ],
        SshMessageView::ChannelOpenConfirmation { maximum_message_size } => seq![
            ("maximum_message_size"@, cbor::uint_tree(maximum_message_size as int)),
        ],
        SshMessageView::ChannelOpenFailure { reason_code, description } => seq![
            ("reason_code"@, cbor::uint_tree(reason_code as int)),
            ("description"@, CborTree::Text(description)),
        ],
        SshMessageView::ChannelWindowAdjust { bytes_to_add } => seq![
            ("bytes_to_add"@, cbor::uint_tree(bytes_to_add as int)),
        ],
        SshMessageView::ChannelData { data } => seq![("data"@, cbor::octets_tree(data))],
        SshMessageView::ChannelExtendedData { data_type_code, data } => seq![
            ("data_type_code"@, cbor::uint_tree(data_type_code as int)),
            ("data"@, cbor::octets_tree(data)),
        ],
        SshMessageView::ChannelRequest { want_reply, request } => seq![
            ("want_reply"@, CborTree::Bool(want_reply)),
            ("request"@, request_tree(request)),
        ],
        SshMessageView::GlobalRequest { want_reply, request } => seq![
            ("want_reply"@, CborTree::Bool(want_reply)),
            ("request"@, global_tree(request)),
        ],
        SshMessageView::GlobalReply { success, bound_port } => seq![
            ("success"@, CborTree::Bool(success)),
            (
                "bound_port"@,
                match bound_port {
                    Some(port) => cbor::uint_tree(port as int),
                    None => CborTree::Null,
                },
            ),
        ],
        _ => Seq::empty(),
    }
}

/// The body of a message as a CBOR value.
pub open spec fn body_tree(m: SshMessageView) -> CborTree {
    cbor::record_tree(body_fields(m))
}

/// The message of a given type that the entries of a map stand for. The entries are read
/// in order, and what is left of one of them belongs to the next.
pub open spec fn message_from(kind: u8, m: Seq<(CborTree, CborTree)>) -> Option<SshMessageView> {
    if kind == 90 {
        match cbor::position(m, "channel_type"@) {
            None => None,
            Some(at) => match channel_type_read(m[at].1, cbor::flat(m.skip(at + 1))) {
                None => None,
                Some((channel_type, rest)) => match cbor::others(m, at, rest, "channel_type"@) {
                    None => None,
                    Some(o) => match u64_field(o, "maximum_message_size"@) {
                        Some(size) => Some(
                            SshMessageView::ChannelOpen { channel_type, maximum_message_size: size },
                        ),
                        None => None,
                    },
                },
            },
        }
    } else if kind == 98 {
        match cbor::position(m, "request"@) {
            None => None,
            Some(at) => match request_read(m[at].1, cbor::flat(m.skip(at + 1))) {
                None => None,
                Some((request, rest)) => match cbor::others(m, at, rest, "request"@) {
                    None => None,
                    Some(o) => match bool_field(o, "want_reply"@) {
                        Some(want_reply) => Some(
                            SshMessageView::ChannelRequest { want_reply, request },
                        ),
                        None => None,
                    },
                },
            },
        }
    } else if kind == 80 {
        match cbor::position(m, "request"@) {
            None => None,
            Some(at) => match global_read(m[at].1, cbor::flat(m.skip(at + 1))) {
                None => None,
                Some((request, rest)) => match cbor::others(m, at, rest, "request"@) {
                    None => None,
                    Some(o) => match bool_field(o, "want_reply"@) {
                        Some(want_reply) => Some(
                            SshMessageView::GlobalRequest { want_reply, request },
                        ),
                        None => None,
                    },
                },
            },
        }
    } else if !cbor::has_keys(m) {
        None
    } else if kind == 91 {
        match u64_field(m, "maximum_message_size"@) {
            Some(size) => Some(
                SshMessageView::ChannelOpenConfirmation { maximum_message_size: size },
            ),
            None => None,
        }
    } else if kind == 92 {
        match (u32_field(m, "reason_code"@), text_field(m, "description"@)) {
            (Some(reason_code), Some(description)) => Some(
                SshMessageView::ChannelOpenFailure { reason_code, description },
            ),
            _ => None,
        }
    } else if kind == 93 {
        match u64_field(m, "bytes_to_add"@) {
            Some(bytes_to_add) => Some(SshMessageView::ChannelWindowAdjust { bytes_to_add }),
            None => None,
        }
    } else if kind == 94 {
        match octets_field(m, "data"@) {
            Some(data) => Some(SshMessageView::ChannelData { data }),
            None => None,
        }
    } else if kind == 95 {
        match (u32_field(m, "data_type_code"@), octets_field(m, "data"@)) {
            (Some(data_type_code), Some(data)) => Some(
                SshMessageView::ChannelExtendedData { data_type_code, data },
            ),
            _ => None,
        }
    } else if kind == 96 {
        Some(SshMessageView::ChannelEOF)
    } else if kind == 97 {
        Some(SshMessageView::ChannelClose)
    } else if kind == 99 {
        Some(SshMessageView::ChannelSuccess)
    } else if kind == 100 {
        Some(SshMessageView::ChannelFailure)
    } else if kind == 81 {
        match (bool_field(m, "success"@), optional_u32_field(m, "bound_port"@)) {
            (Some(success), Some(bound_port)) => Some(
                SshMessageView::GlobalReply { success, bound_port },
            ),
            _ => None,
        }
    } else {
        None
    }
}

/// The message of a given type that a CBOR value stands for.
pub open spec fn message_of(kind: u8, t: CborTree) -> Option<SshMessageView> {
    match cbor::entries_in(t) {
        None => None,
        Some(m) => message_from(kind, m),
    }
}

/// The message that a byte string stands for, or why it stands for none.
pub open spec fn parse_message(data: Seq<u8>) -> Result<SshMessageView, CodecFault> {
    if data.len() == 0 {
        Err(CodecFault::Incomplete)
    } else if !is_message_type(data[0]) {
        Err(CodecFault::UnknownMessageType { value: data[0] })
    } else {
        match outside::cbor_parsed(data.subrange(1, data.len() as int)) {
            Err(e) => Err(CodecFault::CborDecode { message: "CBOR decoding failed: "@ + e }),
            Ok(t) => match message_of(data[0], t) {
                None => Err(
                    CodecFault::CborDecode {
                        message: "CBOR decoding failed: the body does not fit the message type"@,
                    },
                ),
                Some(m) => Ok(m),
            },
        }
    }
}

pub proof fn lemma_channel_type_roundtrip(t: ChannelTypeView, next: Seq<CborTree>)
    ensures
        channel_type_read(channel_type_tree(t), next) == Some((t, next)),
        cbor::is_plain(channel_type_tree(t), 1),
{
    reveal_strlit("Session");
    reveal_strlit("DirectTcp");
    reveal_strlit("ReverseTcp");
    reveal_strlit("DirectUdp");
    reveal_strlit("ReverseUdp");
    assert("Session"@.len() == 7);
    assert("DirectTcp"@.len() == 9);
    assert("ReverseTcp"@.len() == 10);
    assert("DirectUdp"@.len() == 9);
    assert("ReverseUdp"@.len() == 10);
    assert("DirectTcp"@[6] != "DirectUdp"@[6]);
    assert("ReverseTcp"@[7] != "ReverseUdp"@[7]);
    reveal_strlit("Other");
    assert("Other"@.len() == 5);
    if let ChannelTypeView::Other(s) = t {
        assert((seq![CborTree::Text(s)] + next).skip(1) =~= next);
        let fields = seq![("Other"@, CborTree::Text(s))];
        assert forall|k: int| 0 <= k < fields.len() implies cbor::is_plain(
            (#[trigger] fields[k]).1,
            0,
        ) by {}
        cbor::lemma_record_plain(fields, 0);
    }
}

pub proof fn lemma_body_names(m: SshMessageView)
    ensures
        cbor::distinct_names(body_fields(m)),
        cbor::short_names(body_fields(m)),
{
    reveal_strlit("bytes_to_add");
    reveal_strlit("channel_type");
    reveal_strlit("maximum_message_size");
    reveal_strlit("reason_code");
    reveal_strlit("description");
    reveal_strlit("data_type_code");
    reveal_strlit("data");
    reveal_strlit("want_reply");
    reveal_strlit("request");
    reveal_strlit("success");
    reveal_strlit("bound_port");
    assert("channel_type"@.len() != "maximum_message_size"@.len());
    assert("reason_code"@[0] != "description"@[0]);
    assert("data_type_code"@.len() != "data"@.len());
    assert("want_reply"@.len() != "request"@.len());
    assert("success"@.len() != "bound_port"@.len());
}

/// The body of a message stands for the message.
pub proof fn lemma_body_roundtrip(m: SshMessageView)
    ensures
        is_message_type(type_of_message(m)),
        message_of(type_of_message(m), body_tree(m)) == Some(m),
        cbor::is_plain(body_tree(m), 100),
{
    let fields = body_fields(m);
    let body = body_tree(m);
    lemma_body_names(m);
    cbor::lemma_record(fields);
    let entries = body->Entries_0;
    assert forall|k: int| 0 <= k < fields.len() implies cbor::field_of(
        entries,
        (#[trigger] fields[k]).0,
    ) == Some(fields[k].1) by {
        cbor::lemma_record_field(fields, k);
    }
    match m {
        SshMessageView::ChannelOpen { channel_type, maximum_message_size } => {
            cbor::lemma_record_of_two(fields, 0);
            lemma_channel_type_roundtrip(channel_type, cbor::flat(entries.skip(1)));
            cbor::lemma_plain_deeper(channel_type_tree(channel_type), 1, 3);
            assert(fields[0].0 == "channel_type"@);
            assert(fields[1].0 == "maximum_message_size"@);
        },
        SshMessageView::ChannelOpenConfirmation { .. } => {
            assert(fields[0].0 == "maximum_message_size"@);
        },
        SshMessageView::ChannelOpenFailure { .. } => {
            assert(fields[0].0 == "reason_code"@);
            assert(fields[1].0 == "description"@);
        },
        SshMessageView::ChannelWindowAdjust { .. } => {
            assert(fields[0].0 == "bytes_to_add"@);
        },
        SshMessageView::ChannelData { data } => {
            cbor::lemma_octets_roundtrip(data);
            cbor::lemma_plain_deeper(cbor::octets_tree(data), 1, 3);
            assert(fields[0].0 == "data"@);
        },
        SshMessageView::ChannelExtendedData { data_type_code, data } => {
            cbor::lemma_octets_roundtrip(data);
            cbor::lemma_plain_deeper(cbor::octets_tree(data), 1, 3);
            assert(fields[0].0 == "data_type_code"@);
            assert(fields[1].0 == "data"@);
        },
        SshMessageView::ChannelRequest { want_reply, request } => {
            cbor::lemma_record_of_two(fields, 1);
            lemma_request_roundtrip(request, cbor::flat(entries.skip(2)));
            assert(fields[0].0 == "want_reply"@);
            assert(fields[1].0 == "request"@);
        },
        SshMessageView::GlobalRequest { want_reply, request } => {
            cbor::lemma_record_of_two(fields, 1);
            lemma_global_roundtrip(request, cbor::flat(entries.skip(2)));
            assert(fields[0].0 == "want_reply"@);
            assert(fields[1].0 == "request"@);
        },
        SshMessageView::GlobalReply { success, bound_port } => {
            assert(fields[0].0 == "success"@);
            assert(fields[1].0 == "bound_port"@);
        },
        _ => {},
    }
    assert forall|k: int| 0 <= k < fields.len() implies cbor::is_plain(
        (#[trigger] fields[k]).1,
        3,
    ) by {}
    cbor::lemma_record_plain(fields, 3);
    cbor::lemma_plain_deeper(body, 4, 100);
}

fn channel_type_value(t: &ChannelType) -> (r: Value)
    ensures
        cbor::tree_of(r) == channel_type_tree(t@),
{
    match t {
        ChannelType::Session => text_value("Session"),
        ChannelType::DirectTcp => text_value("DirectTcp"),
        ChannelType::ReverseTcp => text_value("ReverseTcp"),
        ChannelType::DirectUdp => text_value("DirectUdp"),
        ChannelType::ReverseUdp => text_value("ReverseUdp"),
        ChannelType::Other(s) => {
            let fields = Record::new().with("Other", text_value(s.as_str()));
            assert(fields.fields() =~= seq![("Other"@, CborTree::Text(s@))]);
            fields.into_value()
        },
    }
}

/// The kind of a channel that is written as this name.
fn named_channel_type(name: &str) -> (r: Option<ChannelType>)
    ensures
        match r {
            Some(t) => channel_type_written_as(name@) == Some(t@),
            None => channel_type_written_as(name@) is None,
        },
{
    if same_text(name, "Session") {
        Some(ChannelType::Session)
    } else if same_text(name, "DirectTcp") {
        Some(ChannelType::DirectTcp)
    } else if same_text(name, "ReverseTcp") {
        Some(ChannelType::ReverseTcp)
    } else if same_text(name, "DirectUdp") {
        Some(ChannelType::DirectUdp)
    } else if same_text(name, "ReverseUdp") {
        Some(ChannelType::ReverseUdp)
    } else {
        None
    }
}

/// Reads the kind of a channel from a CBOR value and the items behind it.
fn read_channel_type<'a>(v: &'a Value, next: Vec<&'a Value>) -> (r: Option<
    (ChannelType, Vec<&'a Value>),
>)
    ensures
        match r {
            Some((t, rest)) => channel_type_read(cbor::tree_of(*v), cbor::trees(next@)) == Some(
                (t@, cbor::trees(rest@)),
            ),
            None => channel_type_read(cbor::tree_of(*v), cbor::trees(next@)) is None,
        },
{
    match read_variant(v) {
        None => None,
        Some((name, held)) => {
            let items = items_behind_name(held, next);
            if same_text(name.as_str(), "Other") {
                if items.len() == 0 {
                    None
                } else {
                    match read_text(items[0]) {
                        Some(s) => {
                            let unread: Vec<&'a Value> = Vec::new();
                            let ghost all = cbor::trees(items@);
                            let rest = unread_then(unread, items);
                            assert(cbor::trees(rest@) =~= all.skip(1));
                            Some((ChannelType::Other(s), rest))
                        },
                        None => None,
                    }
                }
            } else {
                match named_channel_type(name.as_str()) {
                    Some(t) => Some((t, items)),
                    None => None,
                }
            }
        },
    }
}

impl SshMessage {
    /// The type of the message.
    pub fn message_type(&self) -> (r: u8)
        ensures
            r == type_of_message(self@),
    {
        match self {
            SshMessage::ChannelOpen(_) => MessageType::CHANNEL_OPEN,
            SshMessage::ChannelOpenConfirmation(_) => MessageType::CHANNEL_OPEN_CONFIRMATION,
            SshMessage::ChannelOpenFailure(_) => MessageType::CHANNEL_OPEN_FAILURE,
            SshMessage::ChannelWindowAdjust(_) => MessageType::CHANNEL_WINDOW_ADJUST,
            SshMessage::ChannelData(_) => MessageType::CHANNEL_DATA,
            SshMessage::ChannelExtendedData(_) => MessageType::CHANNEL_EXTENDED_DATA,
            SshMessage::ChannelEOF(_) => MessageType::CHANNEL_EOF,
            SshMessage::ChannelClose(_) => MessageType::CHANNEL_CLOSE,
            SshMessage::ChannelRequest(_) => MessageType::CHANNEL_REQUEST,
            SshMessage::ChannelSuccess(_) => MessageType::CHANNEL_SUCCESS,
            SshMessage::ChannelFailure(_) => MessageType::CHANNEL_FAILURE,
            SshMessage::GlobalRequest(_) => MSG_GLOBAL_REQUEST,
            SshMessage::GlobalReply(_) => MSG_GLOBAL_REPLY,
        }
    }

    /// The body of the message as a CBOR value.
    pub fn body_value(&self) -> (r: Value)
        ensures
            cbor::tree_of(r) == body_tree(self@),
    {
        let fields = match self {
            SshMessage::ChannelOpen(m) => Record::new().with(
                "channel_type",
                channel_type_value(&m.channel_type),
            ).with("maximum_message_size", uint_value(m.maximum_message_size)),
            SshMessage::ChannelOpenConfirmation(m) => Record::new().with(
                "maximum_message_size",
                uint_value(m.maximum_message_size),
            ),
            SshMessage::ChannelOpenFailure(m) => Record::new().with(
                "reason_code",
                uint_value(m.reason_code as u64),
            ).with("description", text_value(m.description.as_str())),
            SshMessage::ChannelWindowAdjust(m) => Record::new().with(
                "bytes_to_add",
                uint_value(m.bytes_to_add),
            ),
            SshMessage::ChannelData(m) => Record::new().with("data", octets_value(m.data.as_slice())),
            SshMessage::ChannelExtendedData(m) => Record::new().with(
                "data_type_code",
                uint_value(m.data_type_code as u64),
            ).with("data", octets_value(m.data.as_slice())),
            SshMessage::ChannelRequest(m) => Record::new().with(
                "want_reply",
                Value::Bool(m.want_reply),
            ).with("request", request_value(&m.request)),
            SshMessage::GlobalRequest(m) => Record::new().with(
                "want_reply",
                Value::Bool(m.want_reply),
            ).with("request", global_value(&m.request)),
            SshMessage::GlobalReply(m) => Record::new().with(
                "success",
                Value::Bool(m.success),
            ).with(
                "bound_port",
                match m.bound_port {
                    Some(port) => uint_value(port as u64),
                    None => Value::Null,
                },
            ),
            SshMessage::ChannelEOF(_) => Record::new(),
            SshMessage::ChannelClose(_) => Record::new(),
            SshMessage::ChannelSuccess(_) => Record::new(),
            SshMessage::ChannelFailure(_) => Record::new(),
        };
        assert(fields.fields() =~= body_fields(self@));
        fields.into_value()
    }

    /// The request for a channel that a CBOR value stands for.
    fn open_from_body(body: &Value) -> (r: Option<SshMessage>)
        ensures
            match r {
                Some(m) => message_of(90, cbor::tree_of(*body)) == Some(m@),
                None => message_of(90, cbor::tree_of(*body)) is None,
            },
    {
        let entries = match map_entries(body) {
            Some(entries) => entries,
            None => return None,
        };
        let at = match find(entries, "channel_type") {
            Some(at) => at,
            None => return None,
        };
        let (channel_type, rest) = match read_channel_type(&entries[at].1, items_behind(entries, at)) {
            Some(x) => x,
            None => return None,
        };
        let others = match other_fields(entries, at, rest, "channel_type") {
            Some(others) => others,
            None => return None,
        };
        match get_u64(&others, "maximum_message_size") {
            Some(maximum_message_size) => Some(
                SshMessage::ChannelOpen(ChannelOpenMsg { channel_type, maximum_message_size }),
            ),
            None => None,
        }
    }

    /// The channel request that a CBOR value stands for.
    fn request_from_body(body: &Value) -> (r: Option<SshMessage>)
        ensures
            match r {
                Some(m) => message_of(98, cbor::tree_of(*body)) == Some(m@),
                None => message_of(98, cbor::tree_of(*body)) is None,
            },
    {
        let entries = match map_entries(body) {
            Some(entries) => entries,
            None => return None,
        };
        let at = match find(entries, "request") {
            Some(at) => at,
            None => return None,
        };
        let (request, rest) = match read_request(&entries[at].1, items_behind(entries, at)) {
            Some(x) => x,
            None => return None,
        };
        let others = match other_fields(entries, at, rest, "request") {
            Some(others) => others,
            None => return None,
        };
        match get_bool(&others, "want_reply") {
            Some(want_reply) => Some(
                SshMessage::ChannelRequest(ChannelRequestMsg { want_reply, request }),
            ),
            None => None,
        }
    }

    /// The global request that a CBOR value stands for.
    fn global_from_body(body: &Value) -> (r: Option<SshMessage>)
        ensures
            match r {
                Some(m) => message_of(80, cbor::tree_of(*body)) == Some(m@),
                None => message_of(80, cbor::tree_of(*body)) is None,
            },
    {
        let entries = match map_entries(body) {
            Some(entries) => entries,
            None => return None,
        };
        let at = match find(entries, "request") {
            Some(at) => at,
            None => return None,
        };
        let (request, rest) = match read_global(&entries[at].1, items_behind(entries, at)) {
            Some(x) => x,
            None => return None,
        };
        let others = match other_fields(entries, at, rest, "request") {
            Some(others) => others,
            None => return None,
        };
        match get_bool(&others, "want_reply") {
            Some(want_reply) => Some(
                SshMessage::GlobalRequest(GlobalRequestMsg { want_reply, request }),
            ),
            None => None,
        }
    }

    /// The message of a given type that a CBOR value stands for.
    pub fn from_body(kind: u8, body: &Value) -> (r: Option<SshMessage>)
        ensures
            match r {
                Some(m) => message_of(kind, cbor::tree_of(*body)) == Some(m@),
                None => message_of(kind, cbor::tree_of(*body)) is None,
            },
    {
        if kind == MessageType::CHANNEL_OPEN {
            return SshMessage::open_from_body(body);
        }
        if kind == MessageType::CHANNEL_REQUEST {
            return SshMessage::request_from_body(body);
        }
        if kind == MSG_GLOBAL_REQUEST {
            return SshMessage::global_from_body(body);
        }
        let fields = match record(body) {
            Some(fields) => fields,
            None => return None,
        };
        let m = &fields;
        if kind == MessageType::CHANNEL_OPEN_CONFIRMATION {
            match get_u64(m, "maximum_message_size") {
                Some(maximum_message_size) => Some(
                    SshMessage::ChannelOpenConfirmation(
                        ChannelOpenConfirmationMsg { maximum_message_size },
                    ),
                ),
                None => None,
            }
        } else if kind == MessageType::CHANNEL_OPEN_FAILURE {
            match (get_u32(m, "reason_code"), get_text(m, "description")) {
                (Some(reason_code), Some(description)) => Some(
                    SshMessage::ChannelOpenFailure(
                        ChannelOpenFailureMsg { reason_code, description },
                    ),
                ),
                _ => None,
            }
        } else if kind == MessageType::CHANNEL_WINDOW_ADJUST {
            match get_u64(m, "bytes_to_add") {
                Some(bytes_to_add) => Some(
                    SshMessage::ChannelWindowAdjust(ChannelWindowAdjustMsg { bytes_to_add }),
                ),
                None => None,
            }
        } else if kind == MessageType::CHANNEL_DATA {
            match get_octets(m, "data") {
                Some(data) => Some(SshMessage::ChannelData(ChannelDataMsg { data })),
                None => None,
            }
        } else if kind == MessageType::CHANNEL_EXTENDED_DATA {
            match (get_u32(m, "data_type_code"), get_octets(m, "data")) {
                (Some(data_type_code), Some(data)) => Some(
                    SshMessage::ChannelExtendedData(
                        ChannelExtendedDataMsg { data_type_code, data },
                    ),
                ),
                _ => None,
            }
        } else if kind == MessageType::CHANNEL_EOF {
            Some(SshMessage::ChannelEOF(ChannelEOFMsg {  }))
        } else if kind == MessageType::CHANNEL_CLOSE {
            Some(SshMessage::ChannelClose(ChannelCloseMsg {  }))
        } else if kind == MessageType::CHANNEL_SUCCESS {
            Some(SshMessage::ChannelSuccess(ChannelSuccessMsg {  }))
        } else if kind == MessageType::CHANNEL_FAILURE {
            Some(SshMessage::ChannelFailure(ChannelFailureMsg {  }))
        } else if kind == MSG_GLOBAL_REPLY {
            match (get_bool(m, "success"), get_optional_u32(m, "bound_port")) {
                (Some(success), Some(bound_port)) => Some(
                    SshMessage::GlobalReply(GlobalReplyMsg { success, bound_port }),
                ),
                _ => None,
            }
        } else {
            None
        }
    }

    /// The bytes of the message: its type and its body. Reading them gives the
    /// message back.
    pub fn encode(&self) -> (r: Result<bytes::Bytes, CodecError>)
        ensures
            match r {
                Ok(b) => {
                    &&& outside::bytes_content(b) == seq![type_of_message(self@)]
                        + outside::cbor_written(body_tree(self@))
                    &&& parse_message(outside::bytes_content(b)) == Ok::<
                        SshMessageView,
                        CodecFault,
                    >(self@)
                },
                Err(_) => false,
            },
    {
        let value = self.body_value();
        proof {
            lemma_body_roundtrip(self@);
        }
        let body = match cbor_write_body(&value) {
            Ok(body) => body,
            Err(e) => return Err(e),
        };
        let mut out: Vec<u8> = Vec::new();
        out.push(self.message_type());
        out.extend_from_slice(body.as_slice());
        proof {
            assert(out@ =~= seq![type_of_message(self@)] + body@);
            assert(out@.subrange(1, out@.len() as int) =~= body@);
        }
        Ok(bytes_from_vec(out))
    }

    /// The message that a slice stands for: its first byte is the type, the rest
    /// the body.
    pub fn decode(data: &[u8]) -> (r: Result<Self, CodecError>)
        ensures
            match r {
                Ok(m) => parse_message(data@) == Ok::<SshMessageView, CodecFault>(m@),
                Err(e) => parse_message(data@) == Err::<SshMessageView, CodecFault>(e@),
            },
    {
        if data.len() == 0 {
            return Err(CodecError::Incomplete);
        }
        let kind: u8 = data[0];
        let known: bool = (kind >= MessageType::CHANNEL_OPEN && kind
            <= MessageType::CHANNEL_FAILURE) || kind == MSG_GLOBAL_REQUEST || kind
            == MSG_GLOBAL_REPLY;
        if !known {
            return Err(CodecError::UnknownMessageType { value: kind });
        }
        match cbor_decode(slice_subrange(data, 1, data.len())) {
            Err(e) => Err(CodecError::CborDecode { message: e.to_string() }),
            Ok(body) => match SshMessage::from_body(kind, &body) {
                Some(m) => Ok(m),
                None => Err(
                    CodecError::CborDecode {
                        message:
                            "CBOR decoding failed: the body does not fit the message type".to_owned(),
                    },
                ),
            },
        }
    }
}

/// Writes the body of a message.
fn cbor_write_body(value: &Value) -> (r: Result<Vec<u8>, CodecError>)
    requires
        cbor::is_plain(cbor::tree_of(*value), 100),
    ensures
        match r {
            Ok(b) => {
                &&& b@ == outside::cbor_written(cbor::tree_of(*value))
                &&& outside::cbor_parsed(b@) == Ok::<CborTree, Seq<char>>(cbor::tree_of(*value))
            },
            Err(_) => false,
        },
{
    proof {
        cbor::lemma_plain_written(cbor::tree_of(*value), 100, cbor::MAX_NESTING as nat);
    }
    match cbor_write(value) {
        Ok(b) => Ok(b),
        Err(message) => Err(
            CodecError::CborEncode { message: CborEncodeError::Ciborium { message }.to_string() },
        ),
    }
}

} // verus!
