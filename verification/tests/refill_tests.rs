use fwaifu::refill::{Refill, RefillAction, RefillEvent, RefillPhase};

fn urls(v: &[&str]) -> Vec<String> {
    v.iter().map(|s| s.to_string()).collect()
}

#[test]
fn low_stock_downloads_each_address_in_turn() {
    let (mut r, a) = Refill::start(60, 10, 100);
    assert!(matches!(a, RefillAction::CreateLock));
    assert!(matches!(r.step(RefillEvent::Created(true)), RefillAction::CheckNetwork));
    assert!(matches!(r.step(RefillEvent::Network(true)), RefillAction::CountStock));
    assert!(matches!(r.step(RefillEvent::Stock(59)), RefillAction::FetchUrls(10)));
    assert!(matches!(r.step(RefillEvent::Urls(urls(&["u1", "u2"]))), RefillAction::Download(ref u) if u == "u1"));
    assert!(matches!(r.step(RefillEvent::Downloaded), RefillAction::Pause));
    assert!(matches!(r.step(RefillEvent::Paused), RefillAction::Download(ref u) if u == "u2"));
    assert!(matches!(r.step(RefillEvent::Downloaded), RefillAction::Pause));
    assert!(matches!(r.step(RefillEvent::Paused), RefillAction::Trim(100)));
    assert!(matches!(r.step(RefillEvent::Trimmed), RefillAction::ReleaseLock));
    assert!(matches!(r.step(RefillEvent::Released), RefillAction::Stop));
    assert_eq!(r.phase, RefillPhase::Done);
}

#[test]
fn full_stock_is_only_trimmed() {
    let (mut r, _) = Refill::start(60, 10, 100);
    r.step(RefillEvent::Created(true));
    r.step(RefillEvent::Network(true));
    assert!(matches!(r.step(RefillEvent::Stock(60)), RefillAction::Trim(100)));
}

#[test]
fn failed_request_is_only_trimmed() {
    let (mut r, _) = Refill::start(60, 10, 100);
    r.step(RefillEvent::Created(true));
    r.step(RefillEvent::Network(true));
    r.step(RefillEvent::Stock(0));
    assert!(matches!(r.step(RefillEvent::Urls(Vec::new())), RefillAction::Trim(100)));
}

#[test]
fn no_network_releases_the_lock() {
    let (mut r, _) = Refill::start(60, 10, 100);
    r.step(RefillEvent::Created(true));
    assert!(matches!(r.step(RefillEvent::Network(false)), RefillAction::ReleaseLock));
    assert!(matches!(r.step(RefillEvent::Released), RefillAction::Stop));
}

#[test]
fn live_lock_stops_stale_lock_is_taken_over() {
    let (mut r, _) = Refill::start(60, 10, 100);
    assert!(matches!(r.step(RefillEvent::Created(false)), RefillAction::InspectLock));
    assert!(matches!(r.step(RefillEvent::Owner(Some(42), true)), RefillAction::Stop));

    let (mut r, _) = Refill::start(60, 10, 100);
    r.step(RefillEvent::Created(false));
    assert!(matches!(r.step(RefillEvent::Owner(Some(42), false)), RefillAction::BreakLock));
    assert!(matches!(r.step(RefillEvent::Broken), RefillAction::CreateLock));
    assert!(matches!(r.step(RefillEvent::Created(true)), RefillAction::CheckNetwork));

    let (mut r, _) = Refill::start(60, 10, 100);
    r.step(RefillEvent::Created(false));
    assert!(matches!(r.step(RefillEvent::Owner(None, false)), RefillAction::BreakLock));
    r.step(RefillEvent::Broken);
    assert!(matches!(r.step(RefillEvent::Created(false)), RefillAction::Stop));
}

#[test]
fn refill_repeats_pending_request() {
    let (mut r, _) = Refill::start(60, 10, 100);
    assert!(matches!(r.step(RefillEvent::Paused), RefillAction::CreateLock));
    r.step(RefillEvent::Created(true));
    r.step(RefillEvent::Network(true));
    r.step(RefillEvent::Stock(1));
    r.step(RefillEvent::Urls(urls(&["a"])));
    assert!(matches!(r.step(RefillEvent::Paused), RefillAction::Download(ref u) if u == "a"));
    assert_eq!(r.phase, RefillPhase::Downloading);
}
