use chain_node::rate_limit::{fallback_in_memory, primary_decision, RateWindow};

#[test]
fn fallback_admits_ten_then_rejects() {
    let mut entry: Option<RateWindow> = None;
    for i in 0..10 {
        let (next, ok) = fallback_in_memory(entry, 1000);
        assert!(ok, "request {} should pass", i);
        entry = Some(next);
    }
    let (next, ok) = fallback_in_memory(entry, 1000);
    assert!(!ok);
    assert_eq!(next.count, 11);
    assert_eq!(next.window_start_ms, 1000);
}

#[test]
fn fallback_window_resets_after_sixty_seconds() {
    let full = Some(RateWindow { count: 50, window_start_ms: 1000 });
    let (same, ok) = fallback_in_memory(full, 61000);
    assert!(!ok);
    assert_eq!(same, RateWindow { count: 51, window_start_ms: 1000 });
    let (fresh, ok) = fallback_in_memory(full, 61001);
    assert!(ok);
    assert_eq!(fresh, RateWindow { count: 1, window_start_ms: 61001 });
}

#[test]
fn fallback_first_request_opens_window() {
    let (e, ok) = fallback_in_memory(None, 42);
    assert!(ok);
    assert_eq!(e, RateWindow { count: 1, window_start_ms: 42 });
}

#[test]
fn primary_limits_and_expiry() {
    let first = primary_decision(1, 10);
    assert!(first.allow && first.set_expiry);
    let tenth = primary_decision(10, 10);
    assert!(tenth.allow && !tenth.set_expiry);
    let eleventh = primary_decision(11, 10);
    assert!(!eleventh.allow);
    assert!(primary_decision(0, 10).allow);
}

#[test]
fn fallback_tenth_request_passes_eleventh_fails() {
    let (_, ok) = fallback_in_memory(Some(RateWindow { count: 9, window_start_ms: 0 }), 10);
    assert!(ok);
    let (_, ok) = fallback_in_memory(Some(RateWindow { count: 10, window_start_ms: 0 }), 10);
    assert!(!ok);
}
