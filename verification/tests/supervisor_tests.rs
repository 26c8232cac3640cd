use dsh_shell::supervisor::{
    claim_spawn, launch_failed_message, launch_outcome, status_after, wait_ready_round,
    wait_target, LaunchPoll, Status, WaitRound, LAUNCH_GRACE_SECS, STARTUP_TIMEOUT_SECS,
    WAIT_INTERVAL_MILLIS,
};

#[test]
fn status_starts_empty() {
    let s = Status::default();
    assert_eq!(s.stage, "");
    assert_eq!(s.message, None);
    assert_eq!(s.url, None);
}

#[test]
fn status_after_success_reports_ready_with_the_url() {
    let s = status_after(Ok("http://127.0.0.1:3080".to_string()));
    assert_eq!(s.stage, "ready");
    assert_eq!(s.message, None);
    assert_eq!(s.url.as_deref(), Some("http://127.0.0.1:3080"));
}

#[test]
fn status_after_failure_reports_the_error() {
    let s = status_after(Err("dsh not spawned yet".to_string()));
    assert_eq!(s.stage, "error");
    assert_eq!(s.message.as_deref(), Some("dsh not spawned yet"));
    assert_eq!(s.url, None);
}

#[test]
fn only_the_first_claim_starts_the_supervisor() {
    let mut started = false;
    assert!(claim_spawn(&mut started));
    assert!(started);
    assert!(!claim_spawn(&mut started));
    assert!(!claim_spawn(&mut started));
    assert!(started);
}

#[test]
fn waiting_needs_a_stored_url() {
    assert_eq!(wait_target(None), Err("dsh not spawned yet".to_string()));
    assert_eq!(
        wait_target(Some("http://127.0.0.1:3084".to_string())),
        Ok(("http://127.0.0.1:3084".to_string(), 3084))
    );
    assert_eq!(wait_target(Some("garbled".to_string())), Ok(("garbled".to_string(), 3080)));
}

#[test]
fn wait_rounds_decide_as_the_supervisor_does() {
    let url = "http://127.0.0.1:3080".to_string();
    assert_eq!(wait_ready_round(&url, 180, WaitRound::Starting), None);
    assert_eq!(wait_ready_round(&url, 180, WaitRound::Serving), Some(Ok(url.clone())));
    assert_eq!(
        wait_ready_round(&url, 180, WaitRound::Expired),
        Some(Err("dsh not ready after 180s at http://127.0.0.1:3080".to_string()))
    );
    assert_eq!(
        wait_ready_round(&url, 180, WaitRound::Exited("exit status: 1".to_string())),
        Some(Err("dsh exited during startup (exit exit status: 1)".to_string()))
    );
    assert_eq!(STARTUP_TIMEOUT_SECS, 180);
    assert_eq!(WAIT_INTERVAL_MILLIS, 500);
}

#[test]
fn launch_outcomes_become_errors_or_go_on() {
    assert_eq!(launch_outcome(LaunchPoll::Running), Ok(()));
    assert_eq!(
        launch_outcome(LaunchPoll::Exited {
            status: "exit status: 1".to_string(),
            stderr: "\n  npm ERR! 404 Not Found\r\n\n".to_string(),
        }),
        Err("dsh exited immediately (exit exit status: 1). stderr: npm ERR! 404 Not Found".to_string())
    );
    assert_eq!(
        launch_outcome(LaunchPoll::Exited { status: "exit code: 2".to_string(), stderr: String::new() }),
        Err("dsh exited immediately (exit exit code: 2). stderr: ".to_string())
    );
    assert_eq!(
        launch_outcome(LaunchPoll::PollFailed("Access is denied. (os error 5)".to_string())),
        Err("failed to poll dsh process: Access is denied. (os error 5)".to_string())
    );
    assert_eq!(
        launch_failed_message("program not found"),
        "failed to launch npx dsh: program not found"
    );
    assert_eq!(LAUNCH_GRACE_SECS, 3);
}
