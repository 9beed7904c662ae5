use webdm::auth::{Auth, DrainError, Message, PrimitiveReport, Request, SessionAttempt};
use webdm::auth::request;
use webdm::identity::UserRecord;
use webdm::kv::table_get;
use webdm::orchestrator::{orchestrate_tick, OrchestrationError, TickAction};
use webdm::supervisor::WaitStatus;

fn login(id: u64, username: &str, password: &str) -> Message<Request> {
    request(
        id,
        Request::Login { username: username.to_string(), password: password.to_string() },
    )
}

fn login_report(authenticated: bool) -> PrimitiveReport {
    PrimitiveReport { session: SessionAttempt::PrimitiveFailed, authenticated }
}

fn alice() -> UserRecord {
    UserRecord {
        name: "alice".to_string(),
        uid: 1000,
        gid: 1000,
        shell: "/bin/sh".to_string(),
        home: "/home/alice".to_string(),
    }
}

fn env_value(auth: &Auth, name: &str) -> Option<String> {
    table_get(&auth.env, name).cloned()
}

#[test]
fn scenario_a_correct_login_is_acknowledged() {
    let mut auth = Auth::create(":0".to_string(), 7);
    let queue = vec![login(1, "alice", "correct")];
    let reports = vec![login_report(true)];
    let mut out = Vec::new();
    assert!(auth.drain(&queue, &reports, &mut out).is_ok());
    assert_eq!(out.len(), 1);
    assert_eq!(out[0].id, 1);
    assert_eq!(out[0].message, true);
    assert_eq!(auth.username, "alice");
    assert_eq!(auth.password, "correct");
}

#[test]
fn scenario_b_failed_login_does_not_poison_the_next() {
    let mut auth = Auth::create(":0".to_string(), 7);
    let queue = vec![login(2, "alice", "wrong"), login(3, "alice", "correct")];
    let reports = vec![login_report(false), login_report(true)];
    let mut out = Vec::new();
    assert!(auth.drain(&queue, &reports, &mut out).is_ok());
    assert_eq!(out.len(), 2);
    assert_eq!(out[0].id, 2);
    assert_eq!(out[0].message, false);
    assert_eq!(out[1].id, 3);
    assert_eq!(out[1].message, true);
}

#[test]
fn scenario_c_open_session_for_unknown_user_reports_false() {
    let mut auth = Auth::create(":0".to_string(), 7);
    let queue = vec![request(4, Request::OpenSession)];
    let reports =
        vec![PrimitiveReport { session: SessionAttempt::UnknownUser, authenticated: false }];
    let mut out = Vec::new();
    assert!(auth.drain(&queue, &reports, &mut out).is_ok());
    assert_eq!(out.len(), 1);
    assert_eq!(out[0].id, 4);
    assert_eq!(out[0].message, false);
    assert_eq!(env_value(&auth, "DISPLAY"), Some(":0".to_string()));
    assert_eq!(env_value(&auth, "USER"), Some("".to_string()));
    assert_eq!(env_value(&auth, "SHELL"), None);
}

#[test]
fn scenario_d_dead_asset_server_is_fatal_and_renderer_is_killed() {
    let action = orchestrate_tick(false, WaitStatus::StillAlive, None);
    assert!(matches!(
        action,
        TickAction::Fail { error: OrchestrationError::AssetServerDied, kill_renderer: true }
    ));
}

#[test]
fn open_session_success_binds_full_environment() {
    let mut auth = Auth::create(":1".to_string(), 9);
    auth.bind_credentials("alice".to_string(), "pw".to_string()).unwrap();
    let queue = vec![request(7, Request::OpenSession)];
    let reports = vec![PrimitiveReport {
        session: SessionAttempt::Opened(alice()),
        authenticated: false,
    }];
    let mut out = Vec::new();
    assert!(auth.drain(&queue, &reports, &mut out).is_ok());
    assert_eq!(out[0].id, 7);
    assert_eq!(out[0].message, true);
    assert_eq!(env_value(&auth, "XDG_SESSION_TYPE"), Some("x11".to_string()));
    assert_eq!(env_value(&auth, "XDG_SESSION_CLASS"), Some("user".to_string()));
    assert_eq!(env_value(&auth, "XDG_VTNR"), Some("9".to_string()));
    assert_eq!(env_value(&auth, "XDG_SEAT"), Some("seat0".to_string()));
    assert_eq!(env_value(&auth, "DISPLAY"), Some(":1".to_string()));
    assert_eq!(env_value(&auth, "USER"), Some("alice".to_string()));
    assert_eq!(env_value(&auth, "SHELL"), Some("/bin/sh".to_string()));
    assert_eq!(env_value(&auth, "HOME"), Some("/home/alice".to_string()));
    assert_eq!(env_value(&auth, "PWD"), Some("/home/alice".to_string()));
}

#[test]
fn open_session_primitive_failure_reports_false_but_keeps_display() {
    let mut auth = Auth::create(":0".to_string(), 7);
    let queue = vec![request(5, Request::OpenSession)];
    let reports =
        vec![PrimitiveReport { session: SessionAttempt::PrimitiveFailed, authenticated: true }];
    let mut out = Vec::new();
    assert!(auth.drain(&queue, &reports, &mut out).is_ok());
    assert_eq!(out[0].message, false);
    assert_eq!(env_value(&auth, "DISPLAY"), Some(":0".to_string()));
    assert_eq!(env_value(&auth, "HOME"), None);
}

#[test]
fn nul_username_is_the_fatal_login_path() {
    let mut auth = Auth::create(":0".to_string(), 7);
    let queue = vec![login(1, "ok", "pw"), login(2, "bad\0name", "pw"), login(3, "late", "pw")];
    let reports = vec![login_report(true), login_report(true), login_report(true)];
    let mut out = Vec::new();
    let r = auth.drain(&queue, &reports, &mut out);
    assert!(matches!(r, Err(DrainError::InvalidUsername)));
    assert_eq!(out.len(), 1);
    assert_eq!(out[0].id, 1);
    assert_eq!(auth.username, "ok");
}

#[test]
fn bind_credentials_rejects_nul_and_keeps_state() {
    let mut auth = Auth::create(":0".to_string(), 7);
    auth.bind_credentials("first".to_string(), "pw".to_string()).unwrap();
    let r = auth.bind_credentials("a\0b".to_string(), "other".to_string());
    assert!(matches!(r, Err(DrainError::InvalidUsername)));
    assert_eq!(auth.username, "first");
    assert_eq!(auth.password, "pw");
}

#[test]
fn replies_carry_ids_in_arrival_order() {
    let mut auth = Auth::create(":0".to_string(), 7);
    let queue = vec![
        login(10, "a", "x"),
        request(11, Request::OpenSession),
        login(12, "b", "y"),
    ];
    let reports = vec![
        login_report(false),
        PrimitiveReport { session: SessionAttempt::UnknownUser, authenticated: true },
        login_report(true),
    ];
    let mut out = Vec::new();
    assert!(auth.drain(&queue, &reports, &mut out).is_ok());
    let ids: Vec<u64> = out.iter().map(|m| m.id).collect();
    assert_eq!(ids, vec![10, 11, 12]);
    let values: Vec<bool> = out.iter().map(|m| m.message).collect();
    assert_eq!(values, vec![false, false, true]);
}

#[test]
fn signaled_renderer_is_a_violation_for_the_tick() {
    let r = orchestrate_tick(true, WaitStatus::Signaled, None);
    assert!(matches!(
        r,
        TickAction::Fail { error: OrchestrationError::RendererViolation, kill_renderer: false }
    ));
}

#[test]
fn attempt_is_opened_exactly_when_both_primitives_succeed() {
    let a = webdm::auth::classify_attempt(true, Some(alice()));
    match a {
        SessionAttempt::Opened(u) => {
            assert_eq!(u.name, "alice");
            assert_eq!(u.home, "/home/alice");
        }
        _ => panic!("expected an opened session"),
    }
    assert!(matches!(
        webdm::auth::classify_attempt(true, None),
        SessionAttempt::UnknownUser
    ));
    assert!(matches!(
        webdm::auth::classify_attempt(false, None),
        SessionAttempt::PrimitiveFailed
    ));
    assert!(matches!(
        webdm::auth::classify_attempt(false, Some(alice())),
        SessionAttempt::PrimitiveFailed
    ));
}

#[test]
fn renderer_outcomes_drive_the_tick() {
    let r = orchestrate_tick(true, WaitStatus::StillAlive, None);
    assert!(matches!(r, TickAction::Continue));

    let entry_lines = vec![
        "[Desktop Entry]".to_string(),
        "Type=Application".to_string(),
        "Name=Sway".to_string(),
    ];
    let entry = webdm::freedesktop::Entry::parse(&entry_lines).unwrap();
    let r = orchestrate_tick(true, WaitStatus::Exited(0), Some(Ok(entry)));
    match r {
        TickAction::Launch(e) => assert_eq!(e.name, "Sway"),
        _ => panic!("expected a launch"),
    }

    let r = orchestrate_tick(true, WaitStatus::Exited(0), Some(Err("boom".to_string())));
    assert!(matches!(
        r,
        TickAction::Fail { error: OrchestrationError::RendererFailed(_), kill_renderer: false }
    ));

    let r = orchestrate_tick(true, WaitStatus::Exited(0), None);
    assert!(matches!(
        r,
        TickAction::Fail { error: OrchestrationError::RendererChannelBroken, kill_renderer: false }
    ));

    let r = orchestrate_tick(true, WaitStatus::Exited(3), None);
    assert!(matches!(
        r,
        TickAction::Fail { error: OrchestrationError::RendererViolation, kill_renderer: false }
    ));
}
