use fwaifu::auth::{token_from_content, AuthManager, KeyAction, PasswordInput};
use fwaifu::daemon::{daemon_duration, Daemon, DaemonEvent, DaemonPhase, DaemonStep, heartbeat_expired, heartbeat_text, lock_is_stale, lock_path, needs_refill, pid_text, proc_path, read_daemon_pid, read_heartbeat, read_lock_pid};

#[test]
fn tokens() {
    let a = AuthManager::new("/c/token".to_string());
    assert_eq!(a.token_path(), "/c/token");
    assert_eq!(a.load_token(Some(" abc \n")), Some("abc".to_string()));
    assert_eq!(a.load_token(Some("   ")), None);
    assert_eq!(a.load_token(None), None);
    assert_eq!(token_from_content(Some("x")), Some("x".to_string()));
}

#[test]
fn password_keys() {
    let mut p = PasswordInput::new();
    assert_eq!(p.key(b'a'), KeyAction::Echo);
    assert_eq!(p.key(b' '), KeyAction::Echo);
    assert_eq!(p.key(b'b'), KeyAction::Echo);
    assert_eq!(p.key(0x7f), KeyAction::Erase);
    assert_eq!(p.key(0x1b), KeyAction::Ignore);
    assert_eq!(p.key(b'c'), KeyAction::Echo);
    assert_eq!(p.password(), "a c");
    assert_eq!(p.key(b'\r'), KeyAction::Finish);
    assert_eq!(p.key(3), KeyAction::Interrupt);
    let mut q = PasswordInput::new();
    assert_eq!(q.key(8), KeyAction::Ignore);
    assert_eq!(q.key(b'x'), KeyAction::Echo);
    assert_eq!(q.key(8), KeyAction::Erase);
    assert_eq!(q.password(), "");
}

#[test]
fn heartbeat_and_pid_files_read_back() {
    for t in [0u64, 1, 1700000000, u64::MAX] {
        let text = heartbeat_text(t);
        assert_eq!(text, t.to_string());
        assert_eq!(read_heartbeat(Some(&text)), t);
    }
    assert_eq!(read_heartbeat(Some(" 42\n")), 42);
    assert_eq!(read_heartbeat(Some("junk")), 0);
    assert_eq!(read_heartbeat(None), 0);
    for p in [1u32, 4242, u32::MAX] {
        assert_eq!(read_daemon_pid(Some(&pid_text(p))), Some(p));
        assert_eq!(read_lock_pid(Some(&pid_text(p))), Some(p));
    }
    assert_eq!(read_lock_pid(Some(" 77 \nsecond")), Some(77));
    assert_eq!(read_lock_pid(Some("")), None);
    assert_eq!(read_lock_pid(Some("x\n1")), None);
    assert_eq!(proc_path(123), "/proc/123");
}

#[test]
fn daemon_decisions() {
    assert!(heartbeat_expired(100, 50, 30));
    assert!(!heartbeat_expired(100, 70, 30));
    assert!(!heartbeat_expired(10, 70, 30));
    assert_eq!(daemon_duration(None), 30);
    assert_eq!(daemon_duration(Some("45")), 45);
    assert_eq!(daemon_duration(Some(" 45")), 30);
    assert!(needs_refill(59, 60) && !needs_refill(60, 60));
    let (mut d, step) = Daemon::new(30, 60);
    assert_eq!(step, DaemonStep::ReadHeartbeat);
    assert_eq!(d.step(DaemonEvent::Heartbeat { now: 100, last: 90 }), DaemonStep::CheckNetwork);
    assert_eq!(d.step(DaemonEvent::Network(false)), DaemonStep::Sleep);
    assert_eq!(d.step(DaemonEvent::Slept), DaemonStep::ReadHeartbeat);
    assert_eq!(d.step(DaemonEvent::Heartbeat { now: 100, last: 70 }), DaemonStep::CheckNetwork);
    assert_eq!(d.step(DaemonEvent::Network(true)), DaemonStep::CountStocks);
    assert_eq!(d.step(DaemonEvent::Stocks { sfw: 10, nsfw: 80 }), DaemonStep::Refill { sfw: true, nsfw: false });
    assert_eq!(d.step(DaemonEvent::Network(true)), DaemonStep::Sleep);
    assert_eq!(d.step(DaemonEvent::Slept), DaemonStep::ReadHeartbeat);
    assert_eq!(d.step(DaemonEvent::Heartbeat { now: 100, last: 69 }), DaemonStep::Exit);
    assert_eq!(d.phase, DaemonPhase::Stopped);
    let (mut d, _) = Daemon::new(30, 60);
    assert_eq!(d.step(DaemonEvent::Heartbeat { now: 5, last: 50 }), DaemonStep::CheckNetwork);
}

#[test]
fn refill_locks() {
    assert_eq!(lock_path(false), "/tmp/fwaifu_sfw.lock");
    assert_eq!(lock_path(true), "/tmp/fwaifu_nsfw.lock");
    assert!(lock_is_stale(None, true));
    assert!(lock_is_stale(Some(5), false));
    assert!(!lock_is_stale(Some(5), true));
}
