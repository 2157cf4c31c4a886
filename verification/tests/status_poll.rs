use fission_web::poll::{is_current_session, poll_action, PollAction, PollEvent, MAX_POLL_ATTEMPTS};
use fission_web::status::{
    activity, backend_name, resource_hint, Activity, BackendKind, BackendStatus, ResourceAccess,
};

#[test]
fn activity_precedence() {
    assert_eq!(activity(true, true, true), Activity::Loading);
    assert_eq!(activity(false, true, true), Activity::Decompiling);
    assert_eq!(activity(false, false, true), Activity::Ready);
    assert_eq!(activity(false, false, false), Activity::Idle);
    assert_eq!(Activity::Loading.indicator_class(), "status-indicator busy");
    assert_eq!(Activity::Decompiling.indicator_class(), "status-indicator busy");
    assert_eq!(Activity::Ready.indicator_class(), "status-indicator ready");
    assert_eq!(Activity::Idle.indicator_class(), "status-indicator inactive");
    assert_eq!(Activity::Decompiling.label(), "Decompiling");
    assert_eq!(Activity::Idle.label(), "Idle");
}

#[test]
fn backend_names_and_resource_hints() {
    let status = BackendStatus {
        backend: BackendKind::BrowserWorker,
        resource_access: ResourceAccess::HostFilesystem,
        sleigh_artifacts: true,
        signatures: false,
    };
    assert_eq!(backend_name(None), "backend");
    assert_eq!(backend_name(Some(status)), "browser worker");
    assert_eq!(
        backend_name(Some(BackendStatus { backend: BackendKind::LocalHttp, ..status })),
        "local"
    );
    assert_eq!(resource_hint(None), "resource status unavailable");
    assert_eq!(
        resource_hint(Some(status)),
        "host filesystem \u{b7} SLEIGH ready \u{b7} signatures optional"
    );
    assert_eq!(
        resource_hint(Some(BackendStatus {
            resource_access: ResourceAccess::PackagedArtifacts,
            sleigh_artifacts: false,
            signatures: true,
            ..status
        })),
        "packaged artifacts \u{b7} SLEIGH missing \u{b7} signatures ready"
    );
}

#[test]
fn polling_decisions() {
    assert_eq!(poll_action(0, PollEvent::SessionChanged), PollAction::Stop);
    assert_eq!(poll_action(0, PollEvent::Failed), PollAction::Stop);
    assert_eq!(
        poll_action(0, PollEvent::Listed { still_analyzing: true }),
        PollAction::Apply { analyzing: true }
    );
    assert_eq!(
        poll_action(3, PollEvent::Listed { still_analyzing: false }),
        PollAction::Apply { analyzing: false }
    );
    assert_eq!(
        poll_action(MAX_POLL_ATTEMPTS - 1, PollEvent::Listed { still_analyzing: true }),
        PollAction::Apply { analyzing: false }
    );
}

#[test]
fn polling_stops_within_the_attempt_budget() {
    let mut attempt = 0u32;
    let mut polls = 0u32;
    loop {
        polls += 1;
        match poll_action(attempt, PollEvent::Listed { still_analyzing: true }) {
            PollAction::Apply { analyzing: true } => attempt += 1,
            _ => break,
        }
    }
    assert_eq!(polls, MAX_POLL_ATTEMPTS);
}

#[test]
fn session_comparison() {
    assert!(is_current_session(&Some("abc".to_string()), "abc"));
    assert!(!is_current_session(&Some("abc".to_string()), "abd"));
    assert!(!is_current_session(&Some("abc".to_string()), "ab"));
    assert!(!is_current_session(&None, "abc"));
    assert!(is_current_session(&Some(String::new()), ""));
}
