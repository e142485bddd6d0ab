//! Authentication of a user by name and password, in four stages.
//!
//! A user who is refused is told so only after a random delay, so that the time says
//! little about the stage.

use crate::outside::random_between;
use crate::proto::session;
use vstd::prelude::*;
use vstd::string::*;

verus! {

/// The service under which users are authenticated.
pub const PAM_SERVICE: &'static str = "ssh3";

/// The shortest delay, in milliseconds.
pub const MIN_DELAY_MS: u64 = 100;

/// The longest delay, in milliseconds.
pub const MAX_DELAY_MS: u64 = 500;

/// How an authentication came out.
#[derive(Debug)]
pub enum AuthResult {
    /// The user is who they say they are.
    Success { uid: u32, gid: u32, home: std::path::PathBuf, shell: std::path::PathBuf },
    /// The user is not let in.
    Failure { reason: String },
}

/// Why an authentication failed.
#[derive(Debug, Clone, PartialEq, Eq)]
pub enum PamError {
    /// No transaction could be started; the text is the system's own.
    PamContextCreation { source: String },
    /// The credentials could not be checked; the text is the system's own.
    AuthenticateFailed { source: String },
    /// The account could not be checked; the text is the system's own.
    AccountCheckFailed { source: String },
    /// The user could not be looked up; the number is the system's own.
    GetpwnamFailed { errno: i32 },
    /// There is no such user.
    UserNotFound { username: String },
    /// The credentials are wrong.
    AuthenticationRejected,
    /// The account may not be used.
    AccountCheckRejected,
}

impl PamError {
    /// The text of the error.
    pub open spec fn message(self) -> Seq<char> {
        match self {
            PamError::PamContextCreation { source } => "failed to create PAM context"@,
            PamError::AuthenticateFailed { source } => "pam_authenticate failed"@,
            PamError::AccountCheckFailed { source } => "pam_acct_mgmt failed"@,
            PamError::GetpwnamFailed { errno } => "getpwnam syscall failed"@,
            PamError::UserNotFound { username } => "user '"@ + username@ + "' not found"@,
            PamError::AuthenticationRejected => "authentication rejected"@,
            PamError::AccountCheckRejected => "account check failed"@,
        }
    }

    /// The error as text.
    pub fn to_string(&self) -> (r: String)
        ensures
            r@ == self.message(),
    {
        match self {
            PamError::PamContextCreation { source: _ } => "failed to create PAM context".to_owned(),
            PamError::AuthenticateFailed { source: _ } => "pam_authenticate failed".to_owned(),
            PamError::AccountCheckFailed { source: _ } => "pam_acct_mgmt failed".to_owned(),
            PamError::GetpwnamFailed { errno: _ } => "getpwnam syscall failed".to_owned(),
            PamError::UserNotFound { username } => crate::text::join3(
                "user '",
                username.as_str(),
                "' not found",
            ),
            PamError::AuthenticationRejected => "authentication rejected".to_owned(),
            PamError::AccountCheckRejected => "account check failed".to_owned(),
        }
    }
}

/// What the system knows of a user.
#[derive(Debug)]
pub struct UserInfo {
    pub uid: u32,
    pub gid: u32,
    pub home: std::path::PathBuf,
    pub shell: std::path::PathBuf,
}

/// What checks users.
pub trait PamBackend {
    /// The check of one user.
    type Transaction: PamTransaction;

    /// Starts the check of a user under a service.
    fn start_transaction(&self, service: &str, username: &str, password: &str) -> Result<
        Self::Transaction,
        PamError,
    >;

    /// Looks a user up.
    fn get_user_info(&self, username: &str) -> Result<UserInfo, PamError>;
}

/// The check of one user. It ends when the value is dropped.
pub trait PamTransaction {
    /// Checks the credentials.
    fn authenticate(&mut self) -> Result<(), PamError>;

    /// Checks whether the account may be used.
    fn acct_mgmt(&mut self) -> Result<(), PamError>;
}

/// The outcome of the four stages: the first failure, or the user's data where there is
/// none.
pub open spec fn outcome(
    start: Result<(), PamError>,
    authenticate: Result<(), PamError>,
    account: Result<(), PamError>,
    info: Result<UserInfo, PamError>,
) -> Result<UserInfo, PamError> {
    if start is Err {
        Err(start->Err_0)
    } else if authenticate is Err {
        Err(authenticate->Err_0)
    } else if account is Err {
        Err(account->Err_0)
    } else {
        info
    }
}

/// A user is let in exactly when all four stages go well.
pub proof fn lemma_all_stages_needed(
    start: Result<(), PamError>,
    authenticate: Result<(), PamError>,
    account: Result<(), PamError>,
    info: Result<UserInfo, PamError>,
)
    ensures
        outcome(start, authenticate, account, info) is Ok <==> start is Ok && authenticate is Ok
            && account is Ok && info is Ok,
{
}

/// A result, and for how many milliseconds to hold it back.
#[derive(Debug)]
pub struct PamVerdict {
    pub result: Result<AuthResult, PamError>,
    pub delay_ms: Option<u64>,
}

/// The verdict on what the stages came to: a user is let in with their data, at once, and
/// a failure is told only after a delay within the bounds.
pub open spec fn decides(outcome: Result<UserInfo, PamError>, v: PamVerdict) -> bool {
    match outcome {
        Ok(i) => {
            &&& v.result == Ok::<AuthResult, PamError>(
                AuthResult::Success { uid: i.uid, gid: i.gid, home: i.home, shell: i.shell },
            )
            &&& v.delay_ms is None
        },
        Err(e) => {
            &&& v.result == Err::<AuthResult, PamError>(e)
            &&& v.delay_ms matches Some(ms) && MIN_DELAY_MS <= ms <= MAX_DELAY_MS
        },
    }
}

/// A delay within the bounds, in milliseconds.
pub fn add_random_delay() -> (r: u64)
    ensures
        MIN_DELAY_MS <= r <= MAX_DELAY_MS,
{
    random_between(MIN_DELAY_MS, MAX_DELAY_MS)
}

/// The verdict on what the stages came to.
pub fn pam_verdict(outcome: Result<UserInfo, PamError>) -> (r: PamVerdict)
    ensures
        decides(outcome, r),
{
    match outcome {
        Ok(i) => PamVerdict {
            result: Ok(
                AuthResult::Success { uid: i.uid, gid: i.gid, home: i.home, shell: i.shell },
            ),
            delay_ms: None,
        },
        Err(e) => PamVerdict { result: Err(e), delay_ms: Some(add_random_delay()) },
    }
}

/// The backend was asked in order, each question only where the one before went well, and
/// gave these answers: to start a transaction under the service for this user and
/// password, to check the credentials in it, to check the account in it, and to look this
/// user up. An answer to a question that was not put can be any.
pub open spec fn asked<B: PamBackend>(
    backend: &B,
    username: &str,
    password: &str,
    start: Result<B::Transaction, PamError>,
    checking: &mut B::Transaction,
    authenticate: Result<(), PamError>,
    checked: B::Transaction,
    accounting: &mut B::Transaction,
    account: Result<(), PamError>,
    info: Result<UserInfo, PamError>,
) -> bool {
    &&& call_ensures(B::start_transaction, (backend, PAM_SERVICE, username, password), start)
    &&& start matches Ok(transaction) ==> {
        &&& *checking == transaction
        &&& call_ensures(<B::Transaction as PamTransaction>::authenticate, (checking,), authenticate)
        &&& authenticate is Ok ==> {
            &&& *accounting == checked
            &&& call_ensures(<B::Transaction as PamTransaction>::acct_mgmt, (accounting,), account)
            &&& account is Ok ==> call_ensures(
                B::get_user_info,
                (backend, username),
                info,
            )
        }
    }
}

/// How the start of a transaction came out.
pub open spec fn started<T>(start: Result<T, PamError>) -> Result<(), PamError> {
    match start {
        Ok(_) => Ok(()),
        Err(e) => Err(e),
    }
}

/// Authenticates a user: starts a transaction under the service, checks the
/// credentials, then the account, and looks the user up. What comes back from the
/// backend decides.
pub fn pam_authenticate<B: PamBackend>(backend: &B, username: &str, password: &str) -> (r: PamVerdict)
    ensures
        exists|
            start: Result<B::Transaction, PamError>,
            checking: &mut B::Transaction,
            authenticate: Result<(), PamError>,
            accounting: &mut B::Transaction,
            account: Result<(), PamError>,
            info: Result<UserInfo, PamError>,
        | #[trigger]
            asked(
                backend,
                username,
                password,
                start,
                checking,
                authenticate,
                *final(checking),
                accounting,
                account,
                info,
            ) && decides(outcome(started(start), authenticate, account, info), r),
{
    let start = backend.start_transaction(PAM_SERVICE, username, password);
    let ghost s = start;
    let ghost any: &mut B::Transaction = arbitrary();
    let ghost no_info: Result<UserInfo, PamError> = arbitrary();
    let mut transaction = match start {
        Ok(transaction) => transaction,
        Err(e) => {
            assert(asked(
                backend,
                username,
                password,
                s,
                any,
                Ok(()),
                *final(any),
                any,
                Ok(()),
                no_info,
            ));
            return pam_verdict(Err(e));
        },
    };
    let ghost before = transaction;
    let authenticate = transaction.authenticate();
    let ghost a = authenticate;
    assert(exists|m: &mut B::Transaction|
        *m == before && *final(m) == transaction && #[trigger] call_ensures(
            <B::Transaction as PamTransaction>::authenticate,
            (m,),
            a,
        ));
    let ghost checking = choose|m: &mut B::Transaction|
        *m == before && *final(m) == transaction && #[trigger] call_ensures(
            <B::Transaction as PamTransaction>::authenticate,
            (m,),
            a,
        );
    if let Err(e) = authenticate {
        assert(asked(
            backend,
            username,
            password,
            s,
            checking,
            a,
            *final(checking),
            any,
            Ok(()),
            no_info,
        ));
        return pam_verdict(Err(e));
    }
    let ghost checked = transaction;
    let account = transaction.acct_mgmt();
    let ghost c = account;
    assert(exists|m: &mut B::Transaction|
        *m == checked && #[trigger] call_ensures(
            <B::Transaction as PamTransaction>::acct_mgmt,
            (m,),
            c,
        ));
    let ghost accounting = choose|m: &mut B::Transaction|
        *m == checked && #[trigger] call_ensures(
            <B::Transaction as PamTransaction>::acct_mgmt,
            (m,),
            c,
        );
    if let Err(e) = account {
        assert(asked(
            backend,
            username,
            password,
            s,
            checking,
            a,
            *final(checking),
            accounting,
            c,
            no_info,
        ));
        return pam_verdict(Err(e));
    }
    let info = backend.get_user_info(username);
    assert(asked(
        backend,
        username,
        password,
        s,
        checking,
        a,
        *final(checking),
        accounting,
        c,
        info,
    ));
    pam_verdict(info)
}

/// What the server is told of an authentication.
pub fn run_pam_auth(result: Result<AuthResult, PamError>) -> (r: session::AuthResult)
    ensures
        match result {
            Ok(AuthResult::Success { uid, gid, home, shell }) => r
                == (session::AuthResult::Success { uid, gid, home, shell }),
            Ok(AuthResult::Failure { reason }) => r == (session::AuthResult::Failure { reason }),
            Err(e) => r matches session::AuthResult::Failure { reason } && reason@ == e.message(),
        },
{
    match result {
        Ok(AuthResult::Success { uid, gid, home, shell }) => session::AuthResult::Success {
            uid,
            gid,
            home,
            shell,
        },
        Ok(AuthResult::Failure { reason }) => session::AuthResult::Failure { reason },
        Err(e) => session::AuthResult::Failure { reason: e.to_string() },
    }
}

/// What the server is told where users cannot be authenticated at all.
pub fn pam_unavailable() -> (r: session::AuthResult)
    ensures
        r matches session::AuthResult::Failure { reason } && reason@
            == "PAM support not compiled (missing `pam` feature)"@,
{
    session::AuthResult::Failure {
        reason: "PAM support not compiled (missing `pam` feature)".to_owned(),
    }
}

} // verus!
