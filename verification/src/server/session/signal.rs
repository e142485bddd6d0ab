//! Signals, by name and by number.

use crate::outside::system_signal_numbers;
use crate::text;
use crate::text::{decimal_string, join2, join3, same_text};
use vstd::prelude::*;
use vstd::string::*;
use vstd::utf8::*;

verus! {

/// A signal.
#[derive(Debug, Clone, Copy, PartialEq, Eq, Structural)]
pub enum Signal {
    Abrt,
    Alrm,
    Fpe,
    Hup,
    Ill,
    Int,
    Quit,
    Kill,
    Pipe,
    Segv,
    Term,
    Usr1,
    Usr2,
    /// One of another number than all of these.
    Other(i32),
}

/// The numbers that a system gives to the signals.
#[derive(Debug, Clone, Copy, PartialEq, Eq, Structural)]
pub struct SignalNumbers {
    pub abrt: i32,
    pub alrm: i32,
    pub fpe: i32,
    pub hup: i32,
    pub ill: i32,
    pub int: i32,
    pub quit: i32,
    pub kill: i32,
    pub pipe: i32,
    pub segv: i32,
    pub term: i32,
    pub usr1: i32,
    pub usr2: i32,
}

impl SignalNumbers {
    /// The numbers, in the order of the signals.
    pub open spec fn listed(self) -> Seq<i32> {
        seq![
            self.abrt,
            self.alrm,
            self.fpe,
            self.hup,
            self.ill,
            self.int,
            self.quit,
            self.kill,
            self.pipe,
            self.segv,
            self.term,
            self.usr1,
            self.usr2,
        ]
    }

    /// No two signals have the same number.
    pub open spec fn distinct(self) -> bool {
        self.listed().no_duplicates()
    }

    /// The number of a signal.
    pub open spec fn number(self, signal: Signal) -> i32 {
        match signal {
            Signal::Abrt => self.abrt,
            Signal::Alrm => self.alrm,
            Signal::Fpe => self.fpe,
            Signal::Hup => self.hup,
            Signal::Ill => self.ill,
            Signal::Int => self.int,
            Signal::Quit => self.quit,
            Signal::Kill => self.kill,
            Signal::Pipe => self.pipe,
            Signal::Segv => self.segv,
            Signal::Term => self.term,
            Signal::Usr1 => self.usr1,
            Signal::Usr2 => self.usr2,
            Signal::Other(number) => number,
        }
    }
}

/// The signal that has this number on a system that numbers the signals so.
pub open spec fn signal_of(numbers: SignalNumbers, number: i32) -> Signal {
    if number == numbers.abrt {
        Signal::Abrt
    } else if number == numbers.alrm {
        Signal::Alrm
    } else if number == numbers.fpe {
        Signal::Fpe
    } else if number == numbers.hup {
        Signal::Hup
    } else if number == numbers.ill {
        Signal::Ill
    } else if number == numbers.int {
        Signal::Int
    } else if number == numbers.quit {
        Signal::Quit
    } else if number == numbers.kill {
        Signal::Kill
    } else if number == numbers.pipe {
        Signal::Pipe
    } else if number == numbers.segv {
        Signal::Segv
    } else if number == numbers.term {
        Signal::Term
    } else if number == numbers.usr1 {
        Signal::Usr1
    } else if number == numbers.usr2 {
        Signal::Usr2
    } else {
        Signal::Other(number)
    }
}

impl Signal {
    /// The signal that has this number on a system that numbers the signals so.
    pub fn numbered(numbers: &SignalNumbers, number: i32) -> (r: Self)
        ensures
            r == signal_of(*numbers, number),
    {
        if number == numbers.abrt {
            Signal::Abrt
        } else if number == numbers.alrm {
            Signal::Alrm
        } else if number == numbers.fpe {
            Signal::Fpe
        } else if number == numbers.hup {
            Signal::Hup
        } else if number == numbers.ill {
            Signal::Ill
        } else if number == numbers.int {
            Signal::Int
        } else if number == numbers.quit {
            Signal::Quit
        } else if number == numbers.kill {
            Signal::Kill
        } else if number == numbers.pipe {
            Signal::Pipe
        } else if number == numbers.segv {
            Signal::Segv
        } else if number == numbers.term {
            Signal::Term
        } else if number == numbers.usr1 {
            Signal::Usr1
        } else if number == numbers.usr2 {
            Signal::Usr2
        } else {
            Signal::Other(number)
        }
    }

    /// The signal that has this number here: the numbers are those of the system.
    pub fn of_number(number: i32) -> (r: Self)
        ensures
            exists|numbers: SignalNumbers|
                numbers.distinct() && r == #[trigger] signal_of(numbers, number),
    {
        let numbers = system_signal_numbers();
        Signal::numbered(&numbers, number)
    }

    /// The name of the signal, where it has one that every client knows.
    pub fn name(&self) -> (r: Option<&'static str>)
        ensures
            match r {
                Some(s) => name_of(*self) == Some(s@),
                None => name_of(*self) is None,
            },
    {
        match self {
            Signal::Abrt => Some("ABRT"),
            Signal::Alrm => Some("ALRM"),
            Signal::Fpe => Some("FPE"),
            Signal::Hup => Some("HUP"),
            Signal::Ill => Some("ILL"),
            Signal::Int => Some("INT"),
            Signal::Quit => Some("QUIT"),
            Signal::Kill => Some("KILL"),
            Signal::Pipe => Some("PIPE"),
            Signal::Segv => Some("SEGV"),
            Signal::Term => Some("TERM"),
            Signal::Usr1 => Some("USR1"),
            Signal::Usr2 => Some("USR2"),
            Signal::Other(_) => None,
        }
    }

    /// The name by which a client is told of the signal.
    pub fn told_name(&self) -> (r: String)
        ensures
            r@ == exit_name(*self),
    {
        match self {
            Signal::Other(number) => {
                let number: i32 = *number;
                let digits = if number < 0 {
                    let magnitude: u64 = (0 - number as i64) as u64;
                    join2("-", decimal_string(magnitude).as_str())
                } else {
                    decimal_string(number as u64)
                };
                join3("signal-", digits.as_str(), "@genmeta-ssh3")
            },
            _ => match self.name() {
                Some(name) => name.to_owned(),
                None => vstd::pervasive::unreached(),
            },
        }
    }
}

/// The signal that a client asks for by this name.
pub open spec fn signal_named(name: Seq<char>) -> Option<Signal> {
    if name == "HUP"@ {
        Some(Signal::Hup)
    } else if name == "INT"@ {
        Some(Signal::Int)
    } else if name == "QUIT"@ {
        Some(Signal::Quit)
    } else if name == "KILL"@ {
        Some(Signal::Kill)
    } else if name == "TERM"@ {
        Some(Signal::Term)
    } else if name == "USR1"@ {
        Some(Signal::Usr1)
    } else if name == "USR2"@ {
        Some(Signal::Usr2)
    } else {
        None
    }
}

/// The signal that a client asks for by this name.
pub fn signal_number(signal_name: &str) -> (r: Option<Signal>)
    ensures
        r == signal_named(signal_name@),
{
    if same_text(signal_name, "HUP") {
        Some(Signal::Hup)
    } else if same_text(signal_name, "INT") {
        Some(Signal::Int)
    } else if same_text(signal_name, "QUIT") {
        Some(Signal::Quit)
    } else if same_text(signal_name, "KILL") {
        Some(Signal::Kill)
    } else if same_text(signal_name, "TERM") {
        Some(Signal::Term)
    } else if same_text(signal_name, "USR1") {
        Some(Signal::Usr1)
    } else if same_text(signal_name, "USR2") {
        Some(Signal::Usr2)
    } else {
        None
    }
}

/// The name of a signal, where it has one that every client knows.
pub open spec fn name_of(signal: Signal) -> Option<Seq<char>> {
    match signal {
        Signal::Abrt => Some("ABRT"@),
        Signal::Alrm => Some("ALRM"@),
        Signal::Fpe => Some("FPE"@),
        Signal::Hup => Some("HUP"@),
        Signal::Ill => Some("ILL"@),
        Signal::Int => Some("INT"@),
        Signal::Quit => Some("QUIT"@),
        Signal::Kill => Some("KILL"@),
        Signal::Pipe => Some("PIPE"@),
        Signal::Segv => Some("SEGV"@),
        Signal::Term => Some("TERM"@),
        Signal::Usr1 => Some("USR1"@),
        Signal::Usr2 => Some("USR2"@),
        Signal::Other(_) => None,
    }
}

/// The name of the signal that has this number here, where it has one that every
/// client knows.
pub fn signal_number_name(signal_number: i32) -> (r: Option<&'static str>)
    ensures
        exists|numbers: SignalNumbers|
            numbers.distinct() && match r {
                Some(s) => name_of(#[trigger] signal_of(numbers, signal_number)) == Some(s@),
                None => name_of(signal_of(numbers, signal_number)) is None,
            },
{
    Signal::of_number(signal_number).name()
}

/// A number in decimal, with a sign where it is negative.
pub open spec fn signed_decimal(n: int) -> Seq<char> {
    if n < 0 {
        "-"@ + text::decimal((-n) as nat)
    } else {
        text::decimal(n as nat)
    }
}

/// The name by which a client is told of a signal. One that has no name of its own is
/// told by number, and never passed off as another.
pub open spec fn exit_name(signal: Signal) -> Seq<char> {
    match signal {
        Signal::Other(number) => "signal-"@ + signed_decimal(number as int) + "@genmeta-ssh3"@,
        _ => name_of(signal)->0,
    }
}

/// The name by which a client is told of the signal that has this number here.
pub fn exit_signal_name(signal_number: i32) -> (r: String)
    ensures
        exists|numbers: SignalNumbers|
            numbers.distinct() && r@ == exit_name(#[trigger] signal_of(numbers, signal_number)),
{
    Signal::of_number(signal_number).told_name()
}

/// Where no two signals have the same number, each signal is found by its number, and
/// no signal by two.
pub proof fn lemma_signal_of_number(numbers: SignalNumbers, signal: Signal, number: i32)
    requires
        numbers.distinct(),
        signal is Other ==> !numbers.listed().contains(numbers.number(signal)),
    ensures
        signal_of(numbers, number) == signal <==> number == numbers.number(signal),
{
    let l = numbers.listed();
    assert(forall|i: int, j: int| 0 <= i < l.len() && 0 <= j < l.len() && i != j ==> l[i] != l[j]);
    assert(l[0] == numbers.abrt);
    assert(l[1] == numbers.alrm);
    assert(l[2] == numbers.fpe);
    assert(l[3] == numbers.hup);
    assert(l[4] == numbers.ill);
    assert(l[5] == numbers.int);
    assert(l[6] == numbers.quit);
    assert(l[7] == numbers.kill);
    assert(l[8] == numbers.pipe);
    assert(l[9] == numbers.segv);
    assert(l[10] == numbers.term);
    assert(l[11] == numbers.usr1);
    assert(l[12] == numbers.usr2);
}

/// A signal that a client asks for is told to it by the same name.
pub proof fn lemma_named_signal_roundtrip(name: Seq<char>)
    ensures
        signal_named(name) matches Some(signal) ==> name_of(signal) == Some(name),
{
}

proof fn lemma_decimal_shape(n: nat)
    ensures
        1 <= text::decimal(n).len() <= n + 1,
        is_ascii_chars(text::decimal(n)),
    decreases n,
{
    if n >= 10 {
        lemma_decimal_shape(n / 10);
        assert(text::decimal(n) == text::decimal(n / 10) + seq![text::digit_char(n % 10)]);
    }
    assert(n < 10 ==> text::decimal(n) == seq![text::digit_char(n)]);
}

/// The name by which a client is told of a signal is short, and plain ASCII.
pub proof fn lemma_exit_name_short(signal: Signal)
    ensures
        exit_name(signal).len() <= 0x1_0000_0000,
        is_ascii_chars(exit_name(signal)),
        encode_utf8(exit_name(signal)).len() == exit_name(signal).len(),
{
    reveal_strlit("ABRT");
    reveal_strlit("ALRM");
    reveal_strlit("FPE");
    reveal_strlit("HUP");
    reveal_strlit("ILL");
    reveal_strlit("INT");
    reveal_strlit("QUIT");
    reveal_strlit("KILL");
    reveal_strlit("PIPE");
    reveal_strlit("SEGV");
    reveal_strlit("TERM");
    reveal_strlit("USR1");
    reveal_strlit("USR2");
    reveal_strlit("signal-");
    reveal_strlit("-");
    reveal_strlit("@genmeta-ssh3");
    if let Signal::Other(number) = signal {
        lemma_decimal_shape(number as nat);
        lemma_decimal_shape((-number) as nat);
    }
    is_ascii_chars_encode_utf8(exit_name(signal));
}

/// A signal without a name of its own is told by none of the names of the others.
pub proof fn lemma_no_name_made_up(signal: Signal, other: Signal)
    requires
        name_of(signal) is None,
        name_of(other) is Some,
    ensures
        exit_name(signal) != exit_name(other),
{
    reveal_strlit("ABRT");
    reveal_strlit("ALRM");
    reveal_strlit("FPE");
    reveal_strlit("HUP");
    reveal_strlit("ILL");
    reveal_strlit("INT");
    reveal_strlit("QUIT");
    reveal_strlit("KILL");
    reveal_strlit("PIPE");
    reveal_strlit("SEGV");
    reveal_strlit("TERM");
    reveal_strlit("USR1");
    reveal_strlit("USR2");
    reveal_strlit("signal-");
    reveal_strlit("@genmeta-ssh3");
    assert(exit_name(other).len() <= 4);
    assert(exit_name(signal).len() >= 20);
}

proof fn lemma_decimal_injective(a: nat, b: nat)
    requires
        text::decimal(a) == text::decimal(b),
    ensures
        a == b,
    decreases a,
{
    let s = text::decimal(a);
    assert(s.last() == text::digit_char(a % 10) && s.last() == text::digit_char(b % 10));
    lemma_decimal_shape(a / 10);
    lemma_decimal_shape(b / 10);
    if a >= 10 && b >= 10 {
        assert(s.drop_last() =~= text::decimal(a / 10));
        assert(s.drop_last() =~= text::decimal(b / 10));
        lemma_decimal_injective(a / 10, b / 10);
    }
}

proof fn lemma_decimal_starts_with_digit(n: nat)
    ensures
        text::decimal(n).len() > 0,
        '0' <= text::decimal(n)[0] <= '9',
    decreases n,
{
    if n >= 10 {
        lemma_decimal_starts_with_digit(n / 10);
        assert(text::decimal(n) == text::decimal(n / 10).push(text::digit_char(n % 10)));
    }
}

proof fn lemma_signed_decimal_injective(a: int, b: int)
    requires
        signed_decimal(a) == signed_decimal(b),
    ensures
        a == b,
{
    reveal_strlit("-");
    let x: nat = if a < 0 {
        (-a) as nat
    } else {
        a as nat
    };
    let y: nat = if b < 0 {
        (-b) as nat
    } else {
        b as nat
    };
    lemma_decimal_starts_with_digit(x);
    lemma_decimal_starts_with_digit(y);
    let s = signed_decimal(a);
    assert(a < 0 <==> s[0] == '-');
    assert(b < 0 <==> s[0] == '-');
    if a < 0 {
        assert(s.subrange(1, s.len() as int) =~= text::decimal(x));
        assert(s.subrange(1, s.len() as int) =~= text::decimal(y));
    }
    lemma_decimal_injective(x, y);
}

proof fn lemma_names_differ(a: Signal, b: Signal)
    requires
        name_of(a) is Some,
        name_of(a) == name_of(b),
    ensures
        a == b,
{
    reveal_strlit("ABRT");
    reveal_strlit("ALRM");
    reveal_strlit("FPE");
    reveal_strlit("HUP");
    reveal_strlit("ILL");
    reveal_strlit("INT");
    reveal_strlit("QUIT");
    reveal_strlit("KILL");
    reveal_strlit("PIPE");
    reveal_strlit("SEGV");
    reveal_strlit("TERM");
    reveal_strlit("USR1");
    reveal_strlit("USR2");
    let n = name_of(a)->0;
    let m = name_of(b)->0;
    assert(n[0] == m[0] && n[1] == m[1] && n[2] == m[2] && n.len() == m.len());
    assert(n.len() == 4 ==> n[3] == m[3]);
}

/// No two signals are told by the same name.
pub proof fn lemma_exit_names_differ(signal: Signal, other: Signal)
    requires
        exit_name(signal) == exit_name(other),
    ensures
        signal == other,
{
    if name_of(signal) is Some && name_of(other) is Some {
        lemma_names_differ(signal, other);
    } else if name_of(signal) is Some {
        lemma_no_name_made_up(other, signal);
    } else if name_of(other) is Some {
        lemma_no_name_made_up(signal, other);
    } else {
        reveal_strlit("signal-");
        reveal_strlit("@genmeta-ssh3");
        let s = exit_name(signal);
        let middle = s.subrange(7, s.len() - 13);
        let a = signal->Other_0 as int;
        let b = other->Other_0 as int;
        assert(middle =~= signed_decimal(a));
        assert(middle =~= signed_decimal(b));
        lemma_signed_decimal_injective(a, b);
    }
}

/// What sending a signal to a group of processes came to.
#[derive(Debug, Clone, Copy, PartialEq, Eq, Structural)]
pub enum KillResult {
    Delivered,
    /// There is no such group.
    NoSuchProcess,
    Failed,
}

/// What to do after that.
#[derive(Debug, Clone, Copy, PartialEq, Eq, Structural)]
pub enum KillNext {
    /// Nothing.
    Done,
    /// Send the signal to the process itself.
    KillProcess,
    /// Report the error.
    Fail,
}

/// The signal to send to the group of a process that a client names, where there is
/// one to send: the process must have been started, and the name must be known.
pub fn deliver_signal(child_pid: i32, signal_name: &str) -> (r: Option<Signal>)
    ensures
        r == if child_pid <= 0 {
            None
        } else {
            signal_named(signal_name@)
        },
{
    if child_pid <= 0 {
        None
    } else {
        signal_number(signal_name)
    }
}

/// What to do once the signal was to be sent to the group.
pub fn after_group_kill(result: KillResult) -> (r: KillNext)
    ensures
        r == match result {
            KillResult::Delivered => KillNext::Done,
            KillResult::NoSuchProcess => KillNext::KillProcess,
            KillResult::Failed => KillNext::Fail,
        },
{
    match result {
        KillResult::Delivered => KillNext::Done,
        KillResult::NoSuchProcess => KillNext::KillProcess,
        KillResult::Failed => KillNext::Fail,
    }
}

} // verus!
