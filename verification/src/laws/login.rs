//! Letting a user in, what is recorded of it, and what the server is started with.

use crate::proto::codec::{ChannelId, ChannelStreamHeader, ConversationId};
use crate::proto::conversation::{ChannelError, LocalConversation};
use crate::proto::session;
use crate::server::byte_channel;
use crate::server::byte_channel::ChunkStep;
use crate::server::config;
use crate::server::config::ServerConfig;
use crate::server::pam;
use crate::server::pam::{AuthResult, PamBackend, PamError, PamTransaction, PamVerdict, UserInfo};
use crate::server::session::record_login;
use crate::server::session::record_login::Utmp;
use crate::text;
use vstd::prelude::*;
use vstd::string::*;
use vstd::utf8::*;

verus! {

/// A failure is told after a tenth to half of a second.
pub open spec fn held_back(v: PamVerdict) -> bool {
    v.delay_ms matches Some(ms) && 100 <= ms <= 500
}

/// A user for whom all goes well is let in at once, with what the system knows of them.
pub proof fn law_user_let_in(outcome: Result<UserInfo, PamError>, v: PamVerdict)
    requires
        call_ensures(pam::pam_verdict, (outcome,), v),
    ensures
        outcome matches Ok(i) ==> v.delay_ms is None && v.result == Ok::<AuthResult, PamError>(
            AuthResult::Success { uid: i.uid, gid: i.gid, home: i.home, shell: i.shell },
        ),
        outcome matches Err(e) ==> held_back(v) && v.result == Err::<AuthResult, PamError>(e),
        v.delay_ms is None <==> outcome is Ok,
{
}

/// A user is let in where every check of theirs, under the service `ssh3` with their name
/// and password, goes well.
pub proof fn law_checked_user_let_in<B: PamBackend>(
    backend: &B,
    username: &str,
    password: &str,
    i: UserInfo,
    v: PamVerdict,
)
    requires
        call_ensures(pam::pam_authenticate::<B>, (backend, username, password), v),
        forall|service: &str, s: Result<B::Transaction, PamError>|
            service@ == "ssh3"@ && #[trigger] call_ensures(
                B::start_transaction,
                (backend, service, username, password),
                s,
            ) ==> s is Ok,
        forall|m: &mut B::Transaction, r: Result<(), PamError>| #[trigger]
            call_ensures(<B::Transaction as PamTransaction>::authenticate, (m,), r) ==> r is Ok,
        forall|m: &mut B::Transaction, r: Result<(), PamError>| #[trigger]
            call_ensures(<B::Transaction as PamTransaction>::acct_mgmt, (m,), r) ==> r is Ok,
        forall|r: Result<UserInfo, PamError>| #[trigger]
            call_ensures(B::get_user_info, (backend, username), r) ==> r == Ok::<
                UserInfo,
                PamError,
            >(i),
    ensures
        v.result == Ok::<AuthResult, PamError>(
            AuthResult::Success { uid: i.uid, gid: i.gid, home: i.home, shell: i.shell },
        ),
        v.delay_ms is None,
{
}

/// Nobody is let in whose check cannot be started under the service `ssh3`, whose
/// credentials or whose account are refused, or who cannot be looked up.
pub proof fn law_unchecked_user_kept_out<B: PamBackend>(
    backend: &B,
    username: &str,
    password: &str,
    v: PamVerdict,
)
    requires
        call_ensures(pam::pam_authenticate::<B>, (backend, username, password), v),
        ({
            ||| forall|service: &str, s: Result<B::Transaction, PamError>|
                service@ == "ssh3"@ && #[trigger] call_ensures(
                    B::start_transaction,
                    (backend, service, username, password),
                    s,
                ) ==> s is Err
            ||| forall|m: &mut B::Transaction, r: Result<(), PamError>| #[trigger]
                call_ensures(<B::Transaction as PamTransaction>::authenticate, (m,), r) ==> r is Err
            ||| forall|m: &mut B::Transaction, r: Result<(), PamError>| #[trigger]
                call_ensures(<B::Transaction as PamTransaction>::acct_mgmt, (m,), r) ==> r is Err
            ||| forall|r: Result<UserInfo, PamError>| #[trigger]
                call_ensures(B::get_user_info, (backend, username), r) ==> r is Err
        }),
    ensures
        v.result is Err,
        held_back(v),
{
}

/// What the server is told of a user is what came out: their data, or why not.
pub proof fn law_verdict_told(
    result: Result<AuthResult, PamError>,
    r: session::AuthResult,
    none: session::AuthResult,
)
    requires
        call_ensures(pam::run_pam_auth, (result,), r),
        call_ensures(pam::pam_unavailable, (), none),
    ensures
        r is Success <==> (result matches Ok(a) && a is Success),
        result matches Ok(AuthResult::Success { uid, gid, home, shell }) ==> r == (
        session::AuthResult::Success { uid, gid, home, shell }),
        result matches Ok(AuthResult::Failure { reason }) ==> r == (session::AuthResult::Failure {
            reason,
        }),
        result matches Err(PamError::AuthenticationRejected) ==> r->reason@
            == "authentication rejected"@,
        result matches Err(PamError::AccountCheckRejected) ==> r->reason@
            == "account check failed"@,
        result matches Err(PamError::UserNotFound { username }) ==> r->reason@ == "user '"@
            + username@ + "' not found"@,
        none is Failure,
{
}

/// The verdict on a user is awaited for half a minute, and a sign of life is sent every five
/// seconds.
pub proof fn law_times()
    ensures
        crate::server::handler::AUTH_TIMEOUT_SECS == 30,
        crate::proto::mux::HEARTBEAT_SECS == 5,
{
}

/// A text in a field: as much of it as leaves room for a zero byte, then zero bytes.
pub open spec fn field(s: Seq<char>, room: int) -> Seq<u8> {
    let b = encode_utf8(s);
    Seq::new(
        room as nat,
        |i: int|
            if i < b.len() && i < room - 1 {
                b[i]
            } else {
                0u8
            },
    )
}

/// The record of a login holds who it was, from where, when and in which process.
pub proof fn law_login_recorded(
    pid: i32,
    user: &str,
    clientname: &str,
    secs: i64,
    micros: i64,
    r: Utmp,
)
    requires
        call_ensures(Utmp::entry, (pid, user, clientname, secs, micros), r),
    ensures
        r.ut_type == 7,
        r.ut_pid == pid && r.ut_session == pid,
        r.ut_user@ == field(user@, 32),
        r.ut_host@ == field(clientname@, 256),
        r.ut_line@ == field(Seq::empty(), 32),
        r.ut_id@ == field(Seq::empty(), 4),
        r.tv_sec == secs && r.tv_usec == micros,
{
    encode_utf8_decode_utf8(Seq::<char>::empty());
    assert(encode_utf8(Seq::<char>::empty()).len() == 0);
    assert(r.ut_user@ =~= field(user@, 32));
    assert(r.ut_host@ =~= field(clientname@, 256));
    assert(r.ut_line@ =~= field(Seq::empty(), 32));
    assert(r.ut_id@ =~= field(Seq::empty(), 4));
}

/// A record to be filled holds the process and nothing else, and a delay is a tenth to half
/// of a second.
pub proof fn law_empty_record(pid: i32, r: Utmp, ms: u64)
    requires
        call_ensures(Utmp::new, (pid,), r),
        call_ensures(pam::add_random_delay, (), ms),
    ensures
        r.ut_type == 7 && r.ut_pid == pid && r.ut_session == pid,
        r.ut_user@ == field(Seq::empty(), 32) && r.ut_host@ == field(Seq::empty(), 256),
        r.ut_line@ == field(Seq::empty(), 32) && r.ut_id@ == field(Seq::empty(), 4),
        r.tv_sec == 0 && r.tv_usec == 0,
        100 <= ms <= 500,
{
    encode_utf8_decode_utf8(Seq::<char>::empty());
    assert(encode_utf8(Seq::<char>::empty()).len() == 0);
    assert(r.ut_user@ =~= field(Seq::empty(), 32));
    assert(r.ut_host@ =~= field(Seq::empty(), 256));
    assert(r.ut_line@ =~= field(Seq::empty(), 32));
    assert(r.ut_id@ =~= field(Seq::empty(), 4));
}

/// A text that is copied into a field ends with a zero byte, is cut off only where it does
/// not fit, and leaves what stands behind it.
pub proof fn law_text_in_field(src: &str, dest: &mut Vec<u8>, done: (), i: int)
    requires
        call_ensures(record_login::copy_string_to_c_array, (src, dest), done),
        0 <= i < old(dest)@.len(),
    ensures
        final(dest)@.len() == old(dest)@.len(),
        ({
            let b = encode_utf8(src@);
            let n = if b.len() < old(dest)@.len() {
                b.len() as int
            } else {
                old(dest)@.len() - 1
            };
            final(dest)@[i] == if i < n {
                b[i]
            } else if i == n {
                0
            } else {
                old(dest)@[i]
            }
        }),
{
}

/// The line of the log names the user, where they come from, when it was and the process.
pub proof fn law_login_logged(
    secs: u64,
    hostname: &str,
    pid: u32,
    user: &str,
    clientname: &str,
    r: String,
    when: String,
    process: String,
)
    requires
        call_ensures(record_login::login_log_line, (secs, hostname, pid, user, clientname), r),
        call_ensures(text::decimal_string, (secs,), when),
        call_ensures(text::decimal_string, (pid as u64,), process),
    ensures
        r@ == when@ + " "@ + hostname@ + " sshd3["@ + process@ + "]: Accepted session for "@
            + user@ + " from "@ + clientname@ + " port unknown ssh3\n"@,
{
}

/// The server is started with what the variables say; where none names an address it
/// listens everywhere at port 443, and without a certificate or its key it is not started.
pub proof fn law_started_with(
    cert: Option<String>,
    key: Option<String>,
    bind: Option<String>,
    r: Result<ServerConfig, String>,
    uri: String,
)
    requires
        call_ensures(ServerConfig::from_vars, (cert, key, bind), r),
        call_ensures(ServerConfig::bind_uri, (&r->Ok_0,), uri),
    ensures
        r is Ok <==> cert is Some && key is Some,
        r matches Ok(c) ==> c.cert_path == cert->0 && c.key_path == key->0 && (bind matches Some(
            b,
        ) ==> c.bind_addr == b && uri@ == "inet://"@ + b@) && (bind is None ==> c.bind_addr@
            == "0.0.0.0:443"@),
        cert is None ==> r->Err_0@ == "error: SSH3_CERT_PATH environment variable is not set"@,
        cert is Some && key is None ==> r->Err_0@
            == "error: SSH3_KEY_PATH environment variable is not set"@,
{
}

/// Sessions are served by the program that is named, or by one of the two others.
pub proof fn law_session_program(
    named: Option<String>,
    beside: String,
    beside_exists: bool,
    above: String,
    r: String,
)
    requires
        call_ensures(config::ssh3_session_binary, (named, beside, beside_exists, above), r),
    ensures
        named matches Some(path) ==> r == path,
        named is None && beside_exists ==> r == beside,
        named is None && !beside_exists ==> r == above,
{
}

/// Every byte that comes from a channel is passed on; an empty chunk is not the end.
pub proof fn law_chunk_passed_on(received: Result<Option<Vec<u8>>, ()>, r: ChunkStep)
    requires
        call_ensures(byte_channel::next_chunk, (received,), r),
    ensures
        received matches Ok(Some(data)) && data@.len() > 0 ==> (r matches ChunkStep::Bytes(b) && b@
            == received->Ok_0->0@),
        received matches Ok(Some(data)) && data@.len() == 0 ==> r == ChunkStep::Again,
        received matches Ok(None) ==> r == ChunkStep::End,
        received is Err ==> r == ChunkStep::BrokenPipe,
{
}

/// The channels of a conversation are numbered from zero, one after another, however they
/// come about, and each opens with the conversation's own number, its type and its size.
pub proof fn law_channels_numbered(
    id: ConversationId,
    new: LocalConversation,
    c1: &mut LocalConversation,
    kind: &str,
    size: u64,
    opened: (ChannelId, Result<Vec<u8>, ChannelError>),
    c2: &mut LocalConversation,
    header: ChannelStreamHeader,
    accepted: Result<(ChannelId, String), ChannelError>,
    c3: &mut LocalConversation,
    closed: Result<(ChannelId, String), ChannelError>,
    c4: &mut LocalConversation,
    again: (ChannelId, Result<Vec<u8>, ChannelError>),
    known: ConversationId,
)
    requires
        call_ensures(LocalConversation::new, (id,), new),
        *c1 == new,
        call_ensures(LocalConversation::open_channel, (c1, kind, size), opened),
        *c2 == *final(c1),
        call_ensures(LocalConversation::accept_channel, (c2, Some(header)), accepted),
        *c3 == *final(c2),
        call_ensures(LocalConversation::accept_channel, (c3, None), closed),
        *c4 == *final(c3),
        call_ensures(LocalConversation::open_channel, (c4, kind, size), again),
        call_ensures(LocalConversation::conversation_id, (&*final(c4),), known),
        id@ < 0x4000_0000_0000_0000,
        size < 0x4000_0000_0000_0000,
        encode_utf8(kind@).len() < 0x4000_0000_0000_0000,
    ensures
        opened.0@ == 0,
        opened.1 matches Ok(b) && b@ == crate::laws::stream::header(
            id@ as nat,
            kind@,
            size as nat,
        ),
        accepted matches Ok((n, t)) && n@ == 1 && t@ == header.channel_type@,
        closed is Err,
        again.0@ == 2,
        again.1 matches Ok(b) && b@ == crate::laws::stream::header(id@ as nat, kind@, size as nat),
        known == id,
{
    crate::laws::stream::lemma_header(
        crate::proto::codec::HeaderFields {
            conversation_id: id@,
            channel_type: kind@,
            max_message_size: size,
        },
    );
}

/// Each channel has the number after that of the one before it, and zero comes after the
/// last.
pub proof fn law_next_channel_number(
    c1: &mut LocalConversation,
    kind: &str,
    size: u64,
    opened: (ChannelId, Result<Vec<u8>, ChannelError>),
    c2: &mut LocalConversation,
    header: ChannelStreamHeader,
    accepted: Result<(ChannelId, String), ChannelError>,
    c3: &mut LocalConversation,
    closed: Result<(ChannelId, String), ChannelError>,
    c4: &mut LocalConversation,
    again: (ChannelId, Result<Vec<u8>, ChannelError>),
)
    requires
        call_ensures(LocalConversation::open_channel, (c1, kind, size), opened),
        *c2 == *final(c1),
        call_ensures(LocalConversation::accept_channel, (c2, Some(header)), accepted),
        *c3 == *final(c2),
        call_ensures(LocalConversation::accept_channel, (c3, None), closed),
        *c4 == *final(c3),
        call_ensures(LocalConversation::open_channel, (c4, kind, size), again),
    ensures
        accepted matches Ok((n, t)) && n@ == (opened.0@ + 1) % 0x1_0000_0000 && t@
            == header.channel_type@ && again.0@ == (n@ + 1) % 0x1_0000_0000,
        closed is Err,
        final(c4).id() == old(c1).id(),
{
}

/// The number of a stream is taken as it is, unless it is too large for one.
pub proof fn law_stream_number(raw: u64, r: Option<u64>)
    requires
        call_ensures(session::deserialize_stream_id, (raw,), r),
    ensures
        raw < 0x4000_0000_0000_0000 ==> r == Some(raw),
        raw >= 0x4000_0000_0000_0000 ==> r is None,
{
}

} // verus!
