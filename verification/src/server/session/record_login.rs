//! The records of a login.

use crate::text;
use crate::text::{decimal_string, join2, join3};
use vstd::prelude::*;
use vstd::string::*;
use vstd::utf8::*;

verus! {

/// The lesser of two lengths.
pub open spec fn lesser(a: nat, b: nat) -> nat {
    if a < b {
        a
    } else {
        b
    }
}

/// How many bytes of a text go into an array: as many as leave room for a zero byte.
pub open spec fn copied(length: nat, room: nat) -> nat {
    lesser(
        length,
        if room == 0 {
            0
        } else {
            (room - 1) as nat
        },
    )
}

/// An array after a text was copied into it: as much of the text as leaves room for a
/// zero byte, then that, then what stood there before.
pub open spec fn c_array(bytes: Seq<u8>, before: Seq<u8>) -> Seq<u8> {
    let n = copied(bytes.len(), before.len());
    if before.len() == 0 {
        before
    } else {
        bytes.subrange(0, n as int) + seq![0u8] + before.subrange(
            n as int + 1,
            before.len() as int,
        )
    }
}

/// Copies a text into an array.
pub fn copy_string_to_c_array(src: &str, dest: &mut Vec<u8>)
    ensures
        final(dest)@ == c_array(src.spec_bytes(), old(dest)@),
{
    let bytes = src.as_bytes();
    let room: usize = if dest.len() == 0 {
        0
    } else {
        dest.len() - 1
    };
    let n: usize = if bytes.len() < room {
        bytes.len()
    } else {
        room
    };
    let mut i: usize = 0;
    while i < n
        invariant
            i <= n <= bytes@.len(),
            n < old(dest)@.len() || n == 0,
            dest@.len() == old(dest)@.len(),
            forall|j: int| 0 <= j < i ==> dest@[j] == bytes@[j],
            forall|j: int| i <= j < dest@.len() ==> dest@[j] == old(dest)@[j],
        decreases n - i,
    {
        dest.set(i, bytes[i]);
        i = i + 1;
    }
    if n < dest.len() {
        dest.set(n, 0);
    }
    assert(dest@ =~= c_array(src.spec_bytes(), old(dest)@));
}

/// A text in an array fits and ends with a zero byte, and it is cut off only where it
/// does not fit.
pub proof fn lemma_c_array_terminated(bytes: Seq<u8>, before: Seq<u8>)
    requires
        before.len() > 0,
    ensures
        c_array(bytes, before).len() == before.len(),
        ({
            let n = copied(bytes.len(), before.len());
            &&& n < before.len()
            &&& c_array(bytes, before)[n as int] == 0
            &&& c_array(bytes, before).subrange(0, n as int) == bytes.subrange(0, n as int)
            &&& bytes.len() < before.len() ==> n == bytes.len()
        }),
{
    let n = copied(bytes.len(), before.len());
    assert(c_array(bytes, before).subrange(0, n as int) =~= bytes.subrange(0, n as int));
}

/// A record of a login.
#[derive(Debug, Clone, PartialEq, Eq)]
pub struct Utmp {
    /// What it is a record of; 7 is a login.
    pub ut_type: i16,
    /// The process.
    pub ut_pid: i32,
    /// The terminal.
    pub ut_line: Vec<u8>,
    /// The number of the terminal.
    pub ut_id: Vec<u8>,
    /// The user.
    pub ut_user: Vec<u8>,
    /// Where the user is.
    pub ut_host: Vec<u8>,
    /// The session.
    pub ut_session: i64,
    /// When it was: the seconds.
    pub tv_sec: i64,
    /// When it was: the microseconds.
    pub tv_usec: i64,
}

/// So many zero bytes.
pub open spec fn zeros(n: nat) -> Seq<u8> {
    Seq::new(n, |i: int| 0u8)
}

fn zero_bytes(n: usize) -> (r: Vec<u8>)
    ensures
        r@ == zeros(n as nat),
{
    let mut v: Vec<u8> = Vec::new();
    let mut i: usize = 0;
    while i < n
        invariant
            i <= n,
            v@ == zeros(i as nat),
        decreases n - i,
    {
        v.push(0);
        i = i + 1;
        assert(v@ =~= zeros(i as nat));
    }
    v
}

impl Utmp {
    /// A record of a login by a process, with nothing else in it.
    pub fn new(pid: i32) -> (r: Self)
        ensures
            r.ut_type == 7,
            r.ut_pid == pid,
            r.ut_session == pid,
            r.ut_line@ == zeros(32),
            r.ut_id@ == zeros(4),
            r.ut_user@ == zeros(32),
            r.ut_host@ == zeros(256),
            r.tv_sec == 0,
            r.tv_usec == 0,
    {
        Utmp {
            ut_type: 7,
            ut_pid: pid,
            ut_line: zero_bytes(32),
            ut_id: zero_bytes(4),
            ut_user: zero_bytes(32),
            ut_host: zero_bytes(256),
            ut_session: pid as i64,
            tv_sec: 0,
            tv_usec: 0,
        }
    }

    /// The record of a login of a user from a client at a time.
    pub fn entry(pid: i32, user: &str, clientname: &str, secs: i64, micros: i64) -> (r: Self)
        ensures
            r.ut_type == 7,
            r.ut_pid == pid,
            r.ut_session == pid,
            r.ut_line@ == zeros(32),
            r.ut_id@ == zeros(4),
            r.ut_user@ == c_array(user.spec_bytes(), zeros(32)),
            r.ut_host@ == c_array(clientname.spec_bytes(), zeros(256)),
            r.tv_sec == secs,
            r.tv_usec == micros,
    {
        let mut r = Utmp::new(pid);
        copy_string_to_c_array(user, &mut r.ut_user);
        copy_string_to_c_array(clientname, &mut r.ut_host);
        r.tv_sec = secs;
        r.tv_usec = micros;
        r
    }
}

/// The line of the log for a login.
pub fn login_log_line(secs: u64, hostname: &str, pid: u32, user: &str, clientname: &str) -> (r: String)
    ensures
        r@ == text::decimal(secs as nat) + " "@ + hostname@ + " sshd3["@ + text::decimal(pid as nat)
            + "]: Accepted session for "@ + user@ + " from "@ + clientname@
            + " port unknown ssh3\n"@,
{
    let a = join3(decimal_string(secs).as_str(), " ", hostname);
    let b = join3(a.as_str(), " sshd3[", decimal_string(pid as u64).as_str());
    let c = join3(b.as_str(), "]: Accepted session for ", user);
    let d = join3(c.as_str(), " from ", clientname);
    join2(d.as_str(), " port unknown ssh3\n")
}

} // verus!
