use sigint::sidecar::{SidecarState, StartAction};

#[test]
fn sidecar_lifecycle() {
    let mut s = SidecarState::new();
    assert_eq!(s.start(), StartAction::Launch);
    assert_eq!(s, SidecarState { running: false, pid: None });
    s.spawned(4242);
    assert_eq!(s.start(), StartAction::AlreadyRunning);
    assert_eq!(s.stop(), Some(4242));
    assert_eq!(s, SidecarState { running: false, pid: None });
    assert_eq!(s.stop(), None);
    assert_eq!(s.start(), StartAction::Launch);
}

#[test]
fn sidecar_pid_without_running_flag() {
    let mut s = SidecarState { running: false, pid: Some(7) };
    assert_eq!(s.start(), StartAction::AlreadyRunning);
    assert!(s.running);
    s.exited();
    assert_eq!(s, SidecarState { running: false, pid: None });
    s.spawn_failed();
    assert!(!s.running);
}
