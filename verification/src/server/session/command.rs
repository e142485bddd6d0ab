//! The program that a session runs, and its surroundings.

use crate::server::session::driver::PrivilegeOp;
use crate::text::{contains_char, same_text};
use vstd::prelude::*;
use vstd::string::*;

verus! {

/// Where programs are looked for.
pub const STDPATH: &'static str = "/usr/bin:/bin:/usr/sbin:/sbin";

/// The place after the last slash of a path; 0 where there is none.
pub open spec fn last_part(path: Seq<char>) -> nat
    decreases path.len(),
{
    if path.len() == 0 || path.last() == '/' {
        path.len()
    } else {
        last_part(path.drop_last())
    }
}

/// The name of the file that a path leads to, where it has one: its last part that is
/// neither empty nor a dot, unless that is two dots.
pub open spec fn file_name_of(path: Seq<char>) -> Option<Seq<char>>
    decreases path.len(),
{
    let at = last_part(path);
    if at > path.len() {
        None
    } else {
        let part = path.subrange(at as int, path.len() as int);
        if part == seq!['.', '.'] {
            None
        } else if part.len() > 0 && part != seq!['.'] {
            Some(part)
        } else if at == 0 {
            None
        } else {
            file_name_of(path.subrange(0, at - 1))
        }
    }
}

proof fn lemma_last_part(path: Seq<char>)
    ensures
        last_part(path) <= path.len(),
        last_part(path) > 0 ==> path[last_part(path) - 1] == '/',
        forall|i: int| last_part(path) <= i < path.len() ==> #[trigger] path[i] != '/',
    decreases path.len(),
{
    if path.len() > 0 && path.last() != '/' {
        lemma_last_part(path.drop_last());
        assert forall|i: int| last_part(path) <= i < path.len() implies #[trigger] path[i] != '/' by {
            if i < path.len() - 1 {
                assert(path.drop_last()[i] == path[i]);
            }
        }
    }
}

/// The name of the file that a path leads to, where it has one.
pub fn file_name(path: &str) -> (r: Option<String>)
    ensures
        match r {
            Some(s) => file_name_of(path@) == Some(s@),
            None => file_name_of(path@) is None,
        },
{
    let mut end: usize = path.unicode_len();
    assert(path@.subrange(0, end as int) =~= path@);
    loop
        invariant
            end <= path@.len(),
            file_name_of(path@) == file_name_of(path@.subrange(0, end as int)),
        decreases end,
    {
        let ghost head = path@.subrange(0, end as int);
        let mut at: usize = end;
        while at > 0 && path.get_char(at - 1) != '/'
            invariant
                at <= end <= path@.len(),
                forall|i: int| at <= i < end ==> #[trigger] path@[i] != '/',
            decreases at,
        {
            at = at - 1;
        }
        proof {
            lemma_last_part(head);
            let k = last_part(head);
            if k > at {
                assert(path@[k - 1] != '/');
            }
            if k < at {
                assert(head[at - 1] != '/');
            }
            assert(k == at);
            assert(head.subrange(at as int, end as int) =~= path@.subrange(at as int, end as int));
        }
        let part = path.substring_char(at, end);
        let length: usize = end - at;
        let first_dot: bool = length > 0 && path.get_char(at) == '.';
        let is_dot: bool = length == 1 && first_dot;
        let is_up: bool = length == 2 && first_dot && path.get_char(at + 1) == '.';
        proof {
            assert(is_dot ==> part@ =~= seq!['.']);
            assert(part@ == seq!['.'] ==> is_dot) by {
                if part@ == seq!['.'] {
                    assert(part@[0] == '.');
                    assert(part@.len() == 1);
                }
            }
            assert(is_up ==> part@ =~= seq!['.', '.']);
            assert(part@ == seq!['.', '.'] ==> is_up) by {
                if part@ == seq!['.', '.'] {
                    assert(part@[0] == '.' && part@[1] == '.');
                    assert(part@.len() == 2);
                }
            }
        }
        if is_up {
            return None;
        }
        if length > 0 && !is_dot {
            return Some(part.to_owned());
        }
        if at == 0 {
            return None;
        }
        proof {
            assert(head.subrange(0, at - 1) =~= path@.subrange(0, at - 1));
        }
        end = at - 1;
    }
}

/// A user whose program is to be run.
#[derive(Debug, Clone, PartialEq, Eq)]
pub struct UserContext {
    pub name: String,
    pub dir: String,
    pub shell: String,
}

/// A program to be run.
#[derive(Debug, Clone, PartialEq, Eq)]
pub struct CommandPlan {
    /// The program.
    pub program: String,
    /// What it is told as its own name.
    pub arg0: String,
    /// Where it starts.
    pub dir: String,
    /// Its environment; a later value replaces an earlier one.
    pub env: Vec<(String, String)>,
    /// What it is run with.
    pub args: Vec<String>,
    /// How it takes the user's rights on before it starts, in this order.
    pub rights: Vec<PrivilegeOp>,
}

/// Names and values.
pub open spec fn pairs(v: Seq<(String, String)>) -> Seq<(Seq<char>, Seq<char>)> {
    v.map_values(|p: (String, String)| (p.0@, p.1@))
}

/// The shell of a user: `/bin/sh` where none is named.
pub open spec fn shell_of(user: UserContext) -> Seq<char> {
    if user.shell@.len() == 0 {
        "/bin/sh"@
    } else {
        user.shell@
    }
}

/// The environment of a user's program: the user's own part, the time zone where there
/// is one, what the authentication adds, and what the client asks for.
pub open spec fn environment(
    user: UserContext,
    tz: Option<Seq<char>>,
    authentication: Seq<(String, String)>,
    client: Seq<(String, String)>,
) -> Seq<(Seq<char>, Seq<char>)> {
    seq![
        ("USER"@, user.name@),
        ("LOGNAME"@, user.name@),
        ("HOME"@, user.dir@),
        ("PATH"@, STDPATH@),
        ("SHELL"@, shell_of(user)),
    ] + (match tz {
        Some(tz) => seq![("TZ"@, tz)],
        None => Seq::empty(),
    }) + pairs(authentication) + pairs(client)
}

fn set(env: &mut Vec<(String, String)>, name: &str, value: &str)
    ensures
        pairs(final(env)@) == pairs(old(env)@).push((name@, value@)),
{
    env.push((name.to_owned(), value.to_owned()));
    assert(pairs(env@) =~= pairs(old(env)@).push((name@, value@)));
}

fn set_all(env: &mut Vec<(String, String)>, more: Vec<(String, String)>)
    ensures
        pairs(final(env)@) == pairs(old(env)@) + pairs(more@),
{
    let ghost added = more@;
    let mut more = more;
    env.append(&mut more);
    assert(pairs(env@) =~= pairs(old(env)@) + pairs(added));
}

/// The program of a user: their shell, run with a command or by itself. A name that
/// holds a zero byte is no user's name.
pub fn new_command(
    user: &UserContext,
    exec: Option<&str>,
    tz: Option<&str>,
    authentication: Vec<(String, String)>,
    client: Vec<(String, String)>,
) -> (r: Result<CommandPlan, String>)
    requires
        file_name_of(shell_of(*user)) is Some,
    ensures
        match r {
            Err(m) => user.name@.contains('\0') && m@
                == "Failed to convert username to c-style string"@,
            Ok(plan) => {
                &&& !user.name@.contains('\0')
                &&& plan.program@ == user.shell@
                &&& Some(plan.arg0@) == file_name_of(shell_of(*user))
                &&& plan.dir@ == user.dir@
                &&& pairs(plan.env@) == environment(
                    *user,
                    match tz {
                        Some(tz) => Some(tz@),
                        None => None,
                    },
                    authentication@,
                    client@,
                )
                &&& match exec {
                    Some(program) => plan.args@.len() == 2 && plan.args@[0]@ == "-c"@
                        && plan.args@[1]@ == program@,
                    None => plan.args@.len() == 0,
                }
                &&& plan.rights@ == seq![
                    PrivilegeOp::SetGid,
                    PrivilegeOp::InitGroups,
                    PrivilegeOp::SetUid,
                ]
            },
        },
{
    if contains_char(user.name.as_str(), '\0') {
        return Err("Failed to convert username to c-style string".to_owned());
    }
    let shell: &str = if same_text(user.shell.as_str(), "") {
        "/bin/sh"
    } else {
        user.shell.as_str()
    };
    proof {
        reveal_strlit("");
        assert(user.shell@.len() == 0 <==> user.shell@ =~= ""@);
        assert(shell@ == shell_of(*user));
    }
    let arg0 = match file_name(shell) {
        Some(name) => name,
        None => vstd::pervasive::unreached(),
    };
    let mut env: Vec<(String, String)> = Vec::new();
    set(&mut env, "USER", user.name.as_str());
    set(&mut env, "LOGNAME", user.name.as_str());
    set(&mut env, "HOME", user.dir.as_str());
    set(&mut env, "PATH", STDPATH);
    set(&mut env, "SHELL", shell);
    match tz {
        Some(tz) => set(&mut env, "TZ", tz),
        None => {},
    }
    proof {
        let zone = match tz {
            Some(tz) => seq![("TZ"@, tz@)],
            None => Seq::empty(),
        };
        assert(pairs(env@) =~= seq![
            ("USER"@, user.name@),
            ("LOGNAME"@, user.name@),
            ("HOME"@, user.dir@),
            ("PATH"@, STDPATH@),
            ("SHELL"@, shell_of(*user)),
        ] + zone);
    }
    set_all(&mut env, authentication);
    set_all(&mut env, client);
    let mut args: Vec<String> = Vec::new();
    match exec {
        Some(program) => {
            args.push("-c".to_owned());
            args.push(program.to_owned());
        },
        None => {},
    }
    Ok(
        CommandPlan {
            program: user.shell.as_str().to_owned(),
            arg0,
            dir: user.dir.as_str().to_owned(),
            env,
            args,
            rights: vec![PrivilegeOp::SetGid, PrivilegeOp::InitGroups, PrivilegeOp::SetUid],
        },
    )
}

/// What the client of a relayed program sends.
#[derive(Debug, Clone, PartialEq, Eq)]
pub enum ClientSessionMessage {
    /// The terminal has another size.
    WindowSize { rows: u16, cols: u16, width: u16, height: u16 },
    /// Input for the program.
    Terminal(Vec<u8>),
}

/// What the client of a relayed program is sent.
#[derive(Debug, Clone, PartialEq, Eq)]
pub enum ServerSessionMessage {
    /// Output of the program.
    Terminal { stderr: bool, data: Vec<u8> },
    /// The program has ended with this code.
    Exit { code: i32 },
}

/// What happens in a session that relays a program.
#[derive(Debug)]
pub enum RelayEvent {
    /// The client sent something.
    Input(ClientSessionMessage),
    /// The client sends nothing more, or the program takes nothing more.
    InputEnded,
    /// The program wrote something.
    Output { stderr: bool, data: Vec<u8> },
    /// The program has ended with this code, where it could be awaited.
    Exited(Option<i32>),
}

/// What a session that relays a program is to do.
#[derive(Debug)]
pub enum RelayAction {
    /// Nothing: it is over.
    Nothing,
    /// Give the terminal this size.
    Resize(libc::winsize),
    /// Write this to the program; where that fails, its input has ended.
    Write(Vec<u8>),
    /// Send this to the client.
    Send(ServerSessionMessage),
    /// Send this to the client, where there is something to send, and kill the program.
    Finish(Option<ServerSessionMessage>),
    /// Report this error to the client, and kill the program.
    Cancel(String),
}

impl RelayAction {
    /// Whether the session is over once this is done.
    pub open spec fn ends(self) -> bool {
        self is Finish || self is Cancel
    }
}

/// What an event leads to while a program is relayed.
pub open spec fn relays(event: RelayEvent, action: RelayAction) -> bool {
    match event {
        RelayEvent::Input(ClientSessionMessage::WindowSize { rows, cols, width, height }) => action
            == RelayAction::Resize(
            libc::winsize { ws_row: rows, ws_col: cols, ws_xpixel: width, ws_ypixel: height },
        ),
        RelayEvent::Input(ClientSessionMessage::Terminal(data)) => action == RelayAction::Write(
            data,
        ),
        RelayEvent::InputEnded => action == RelayAction::Finish(None),
        RelayEvent::Output { stderr, data } => action == RelayAction::Send(
            ServerSessionMessage::Terminal { stderr, data },
        ),
        RelayEvent::Exited(Some(code)) => action == RelayAction::Finish(
            Some(ServerSessionMessage::Exit { code }),
        ),
        RelayEvent::Exited(None) => action matches RelayAction::Cancel(m) && m@
            == "Server internal error"@,
    }
}

/// A session that relays a program.
#[derive(Debug, Clone, Copy, PartialEq, Eq, Structural)]
pub struct Relay {
    /// Whether it is over.
    pub over: bool,
}

impl Relay {
    /// A session whose program has been started.
    pub fn new() -> (r: Self)
        ensures
            !r.over,
    {
        Relay { over: false }
    }

    /// Takes an event in. The session is over with the first end, whichever it is.
    pub fn relay(&mut self, event: RelayEvent) -> (r: RelayAction)
        ensures
            old(self).over ==> final(self).over && r is Nothing,
            !old(self).over ==> relays(event, r) && (final(self).over <==> r.ends()),
    {
        if self.over {
            return RelayAction::Nothing;
        }
        match event {
            RelayEvent::Input(message) => handle_client_message(message),
            RelayEvent::InputEnded => {
                self.over = true;
                RelayAction::Finish(None)
            },
            RelayEvent::Output { stderr, data } => RelayAction::Send(
                ServerSessionMessage::Terminal { stderr, data },
            ),
            RelayEvent::Exited(code) => {
                self.over = true;
                match code {
                    Some(code) => RelayAction::Finish(Some(ServerSessionMessage::Exit { code })),
                    None => RelayAction::Cancel("Server internal error".to_owned()),
                }
            },
        }
    }
}

/// What to do with what the client sent.
pub fn handle_client_message(message: ClientSessionMessage) -> (r: RelayAction)
    ensures
        relays(RelayEvent::Input(message), r),
{
    match message {
        ClientSessionMessage::WindowSize { rows, cols, width, height } => RelayAction::Resize(
            libc::winsize { ws_row: rows, ws_col: cols, ws_xpixel: width, ws_ypixel: height },
        ),
        ClientSessionMessage::Terminal(data) => RelayAction::Write(data),
    }
}

/// What waiting for a process came to.
#[derive(Debug, Clone, Copy, PartialEq, Eq, Structural)]
pub enum WaitStatus {
    /// It ended by itself, with this code.
    Exited(i32),
    /// It was ended by this signal.
    Signaled(i32),
    /// It has not ended.
    Other,
}

/// The code of a process that has ended: that of one that a signal ended is 128 more
/// than the signal.
pub fn wait_child_exit(status: WaitStatus) -> (r: Option<i32>)
    requires
        status matches WaitStatus::Signaled(signal) ==> 0 <= signal < 128,
    ensures
        r == match status {
            WaitStatus::Exited(code) => Some(code),
            WaitStatus::Signaled(signal) => Some((128 + signal) as i32),
            WaitStatus::Other => None,
        },
{
    match status {
        WaitStatus::Exited(code) => Some(code),
        WaitStatus::Signaled(signal) => Some(128 + signal),
        WaitStatus::Other => None,
    }
}

} // verus!
