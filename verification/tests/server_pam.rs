use ssh3::proto::session;
use ssh3::server::pam::{
    add_random_delay, pam_authenticate, pam_unavailable, pam_verdict, run_pam_auth, AuthResult,
    PamBackend, PamError, PamTransaction, UserInfo, MAX_DELAY_MS, MIN_DELAY_MS, PAM_SERVICE,
};
use std::cell::RefCell;
use std::path::PathBuf;
use std::rc::Rc;

struct MockPam {
    start_error: Option<PamError>,
    auth_error: Option<PamError>,
    acct_error: Option<PamError>,
    info_error: Option<PamError>,
    calls: Rc<RefCell<Vec<String>>>,
}

struct MockPamTransaction {
    auth_error: Option<PamError>,
    acct_error: Option<PamError>,
    calls: Rc<RefCell<Vec<String>>>,
}

impl MockPam {
    fn success() -> Self {
        MockPam {
            start_error: None,
            auth_error: None,
            acct_error: None,
            info_error: None,
            calls: Rc::new(RefCell::new(Vec::new())),
        }
    }
}

fn user_info() -> UserInfo {
    UserInfo {
        uid: 1001,
        gid: 1001,
        home: PathBuf::from("/home/alice"),
        shell: PathBuf::from("/bin/zsh"),
    }
}

fn answer(error: &Option<PamError>) -> Result<(), PamError> {
    match error {
        Some(e) => Err(e.clone()),
        None => Ok(()),
    }
}

impl PamBackend for MockPam {
    type Transaction = MockPamTransaction;

    fn start_transaction(
        &self,
        service: &str,
        username: &str,
        password: &str,
    ) -> Result<MockPamTransaction, PamError> {
        self.calls
            .borrow_mut()
            .push(format!("start_transaction {service} {username} {password}"));
        answer(&self.start_error)?;
        Ok(MockPamTransaction {
            auth_error: self.auth_error.clone(),
            acct_error: self.acct_error.clone(),
            calls: self.calls.clone(),
        })
    }

    fn get_user_info(&self, username: &str) -> Result<UserInfo, PamError> {
        self.calls.borrow_mut().push(format!("get_user_info {username}"));
        answer(&self.info_error)?;
        Ok(user_info())
    }
}

impl PamTransaction for MockPamTransaction {
    fn authenticate(&mut self) -> Result<(), PamError> {
        self.calls.borrow_mut().push("authenticate".to_string());
        answer(&self.auth_error)
    }

    fn acct_mgmt(&mut self) -> Result<(), PamError> {
        self.calls.borrow_mut().push("acct_mgmt".to_string());
        answer(&self.acct_error)
    }
}

impl Drop for MockPamTransaction {
    fn drop(&mut self) {
        self.calls.borrow_mut().push("end".to_string());
    }
}

#[test]
fn test_pam_success_full_flow() {
    let mock = MockPam::success();
    let verdict = pam_authenticate(&mock, "alice", "correct-password");
    assert_eq!(verdict.delay_ms, None);
    match verdict.result.unwrap() {
        AuthResult::Success {
            uid,
            gid,
            home,
            shell,
        } => {
            assert_eq!(uid, 1001);
            assert_eq!(gid, 1001);
            assert_eq!(home, PathBuf::from("/home/alice"));
            assert_eq!(shell, PathBuf::from("/bin/zsh"));
        }
        AuthResult::Failure { reason } => panic!("expected Success, got Failure: {reason}"),
    }
    assert_eq!(
        *mock.calls.borrow(),
        vec![
            "start_transaction ssh3 alice correct-password",
            "authenticate",
            "acct_mgmt",
            "get_user_info alice",
            "end",
        ]
    );
}

#[test]
fn test_pam_auth_failure_with_delay() {
    let mut mock = MockPam::success();
    mock.auth_error = Some(PamError::AuthenticationRejected);
    let verdict = pam_authenticate(&mock, "alice", "wrong-password");
    assert!(matches!(verdict.result, Err(PamError::AuthenticationRejected)));
    let delay = verdict.delay_ms.unwrap();
    assert!(delay >= 100, "expected delay >= 100ms, got {delay}");
    assert!(delay <= 500, "expected delay <= 500ms, got {delay}");
}

#[test]
fn test_pam_acct_mgmt_failure() {
    let mut mock = MockPam::success();
    mock.acct_error = Some(PamError::AccountCheckRejected);
    let verdict = pam_authenticate(&mock, "alice", "correct-password");
    assert!(matches!(verdict.result, Err(PamError::AccountCheckRejected)));
    assert!(verdict.delay_ms.unwrap() >= 100);
    assert_eq!(
        mock.calls.borrow()[1..],
        ["authenticate", "acct_mgmt", "end"]
    );
}

#[test]
fn test_pam_end_always_called() {
    let mock = MockPam::success();
    pam_authenticate(&mock, "user", "pass");
    assert_eq!(mock.calls.borrow().last().unwrap(), "end");
    let mut mock = MockPam::success();
    mock.auth_error = Some(PamError::AuthenticationRejected);
    pam_authenticate(&mock, "user", "pass");
    assert_eq!(mock.calls.borrow().last().unwrap(), "end");
}

#[test]
fn test_pam_error_display() {
    let err = PamError::AuthenticationRejected;
    assert_eq!(err.to_string(), "authentication rejected");

    let err = PamError::AccountCheckRejected;
    assert_eq!(err.to_string(), "account check failed");
}

#[test]
fn test_pam_service_name() {
    assert_eq!(PAM_SERVICE, "ssh3");
}

#[test]
fn pam_errors_of_the_system_are_told_without_their_cause() {
    let source = "cause".to_string();
    assert_eq!(
        PamError::PamContextCreation {
            source: source.clone()
        }
        .to_string(),
        "failed to create PAM context"
    );
    assert_eq!(
        PamError::AuthenticateFailed {
            source: source.clone()
        }
        .to_string(),
        "pam_authenticate failed"
    );
    assert_eq!(
        PamError::AccountCheckFailed { source }.to_string(),
        "pam_acct_mgmt failed"
    );
    assert_eq!(
        PamError::GetpwnamFailed { errno: 2 }.to_string(),
        "getpwnam syscall failed"
    );
    assert_eq!(
        PamError::UserNotFound {
            username: "bob".to_string()
        }
        .to_string(),
        "user 'bob' not found"
    );
}

#[test]
fn every_failure_is_held_back() {
    let mut mock = MockPam::success();
    mock.info_error = Some(PamError::GetpwnamFailed { errno: 5 });
    let verdict = pam_authenticate(&mock, "alice", "x");
    assert!(matches!(
        verdict.result,
        Err(PamError::GetpwnamFailed { errno: 5 })
    ));
    assert!((100..=500).contains(&verdict.delay_ms.unwrap()));
    let mut mock = MockPam::success();
    mock.start_error = Some(PamError::AuthenticationRejected);
    let verdict = pam_authenticate(&mock, "alice", "x");
    assert!(verdict.delay_ms.is_some());
    assert_eq!(mock.calls.borrow().len(), 1);
}

#[test]
fn first_stage_that_fails_is_the_outcome() {
    let mut mock = MockPam::success();
    mock.auth_error = Some(PamError::AuthenticationRejected);
    mock.acct_error = Some(PamError::AccountCheckRejected);
    let verdict = pam_authenticate(&mock, "alice", "x");
    assert!(matches!(verdict.result, Err(PamError::AuthenticationRejected)));
    assert_eq!(
        *mock.calls.borrow(),
        vec!["start_transaction ssh3 alice x", "authenticate", "end"]
    );
}

#[test]
fn verdict_lets_in_at_once_and_holds_failures_back() {
    let verdict = pam_verdict(Ok(user_info()));
    assert!(verdict.result.is_ok());
    assert_eq!(verdict.delay_ms, None);
    let verdict = pam_verdict(Err(PamError::AccountCheckRejected));
    assert!(matches!(verdict.result, Err(PamError::AccountCheckRejected)));
    assert!((100..=500).contains(&verdict.delay_ms.unwrap()));
}

#[test]
fn delays_stay_within_their_bounds_and_vary() {
    let delays: Vec<u64> = (0..200).map(|_| add_random_delay()).collect();
    assert!(delays.iter().all(|d| (MIN_DELAY_MS..=MAX_DELAY_MS).contains(d)));
    assert!(delays.iter().any(|d| *d != delays[0]));
}

#[test]
fn server_is_told_of_an_authentication() {
    assert!(matches!(
        run_pam_auth(Err(PamError::AccountCheckRejected)),
        session::AuthResult::Failure { reason } if reason == "account check failed"
    ));
    assert!(matches!(
        run_pam_auth(Ok(AuthResult::Failure { reason: "no".to_string() })),
        session::AuthResult::Failure { reason } if reason == "no"
    ));
    let success = AuthResult::Success {
        uid: 1,
        gid: 2,
        home: PathBuf::from("/h"),
        shell: PathBuf::from("/s"),
    };
    assert!(matches!(
        run_pam_auth(Ok(success)),
        session::AuthResult::Success { uid: 1, gid: 2, .. }
    ));
    assert!(matches!(
        pam_unavailable(),
        session::AuthResult::Failure { reason }
            if reason == "PAM support not compiled (missing `pam` feature)"
    ));
}
