use backend::error::AppError;
use backend::models::recipe::ModelUsage;
use backend::services::groq::{
    is_rate_limit_message, Acquire, ModelState, SlidingWindowLimiter, TpmLimiter,
    GROQ_RATE_LIMIT_DEFAULT_WAIT_MINUTES,
};
use backend::services::jina::JinaRequestWindow;

const SEC: u64 = 1_000_000_000;

#[test]
fn request_window_admits_up_to_the_limit() {
    let mut l = SlidingWindowLimiter::new(2, 1);
    assert!(matches!(l.check("Groq", 0), Ok(None)));
    l.commit(0);
    assert!(matches!(l.check("Groq", SEC), Ok(None)));
    l.commit(SEC);
    // Full: the oldest request leaves the window 60 s after it was made.
    assert!(matches!(l.check("Groq", 10 * SEC), Ok(Some(w)) if w == 50 * SEC));
    // Once it has left there is room again.
    assert!(matches!(l.check("Groq", 60 * SEC), Ok(None)));
}

#[test]
fn request_window_with_zero_limit_is_rate_limited() {
    let mut l = SlidingWindowLimiter::new(0, 4);
    match l.check("Groq", 0) {
        Err(AppError::RateLimitError { message, retry_after_minutes }) => {
            assert_eq!(message, "Groq");
            assert_eq!(retry_after_minutes, 4);
        }
        _ => panic!("expected a rate limit"),
    }
}

#[test]
fn cancel_gives_the_slot_back() {
    let mut l = SlidingWindowLimiter::new(1, 1);
    let id = l.commit(0);
    assert!(matches!(l.check("Groq", SEC), Ok(Some(_))));
    l.cancel(id);
    assert!(matches!(l.check("Groq", SEC), Ok(None)));
}

#[test]
fn token_window_reserves_within_the_limit() {
    let mut t = TpmLimiter::new(1000);
    let (wait, id) = t.try_reserve(600, 0);
    assert_eq!(wait, None);
    assert!(id.is_some());
    assert_eq!(t.current_tokens(), 600);
    let (wait, id2) = t.try_reserve(500, SEC);
    assert_eq!(id2, None);
    // 100 tokens over the limit; the 600 reserved at 0 free them at 60 s.
    assert_eq!(wait, Some(59 * SEC));
    assert_eq!(t.current_tokens(), 600);
}

#[test]
fn token_reservations_can_be_adjusted_and_cancelled() {
    let mut t = TpmLimiter::new(1000);
    let (_, id) = t.try_reserve(600, 0);
    let id = id.unwrap();
    t.adjust_reservation(id, 250);
    assert_eq!(t.current_tokens(), 250);
    t.cancel_reservation(id);
    assert_eq!(t.current_tokens(), 0);
}

#[test]
fn token_window_forgets_old_reservations() {
    let mut t = TpmLimiter::new(100);
    let _ = t.try_reserve(100, 0);
    t.evict(60 * SEC);
    assert_eq!(t.current_tokens(), 0);
}

#[test]
fn model_admission_grants_both_reservations() {
    let mut m = ModelState::new(10, 1, 1000);
    match m.try_acquire("Groq", 100, 0) {
        Ok(Acquire::Granted { .. }) => {}
        _ => panic!("expected a grant"),
    }
    assert_eq!(m.tpm.current_tokens(), 100);
}

#[test]
fn blackout_makes_requests_wait() {
    let mut m = ModelState::new(10, 1, 1000);
    m.set_blackout(2, 0);
    assert_eq!(m.check_blackout(SEC), Some(119 * SEC as u128));
    match m.try_acquire("Groq", 100, SEC) {
        Ok(Acquire::Wait(d)) => assert_eq!(d, 119 * SEC as u128),
        _ => panic!("expected to wait"),
    }
    // A shorter blackout does not shorten the current one.
    m.set_blackout(1, SEC);
    assert_eq!(m.blackout_until, Some(120 * SEC as u128));
    assert_eq!(m.check_blackout(120 * SEC), None);
}

#[test]
fn rate_limited_call_releases_its_reservations() {
    let mut m = ModelState::new(10, 1, 1000);
    let (rpm, tpm) = match m.try_acquire("Groq", 300, 0) {
        Ok(Acquire::Granted { rpm_id, tpm_id }) => (rpm_id, tpm_id),
        _ => panic!("expected a grant"),
    };
    m.release_after_rate_limit(rpm, tpm, 1, 0);
    assert_eq!(m.tpm.current_tokens(), 0);
    assert_eq!(m.check_blackout(0), Some(60 * SEC as u128));
}

#[test]
fn usage_replaces_the_estimate() {
    let mut m = ModelState::new(10, 1, 1000);
    let tpm = match m.try_acquire("Groq", 300, 0) {
        Ok(Acquire::Granted { tpm_id, .. }) => tpm_id,
        _ => panic!("expected a grant"),
    };
    m.record_usage(tpm, ModelUsage { input_tokens: 40, output_tokens: 2 });
    assert_eq!(m.tpm.current_tokens(), 42);
}

#[test]
fn groq_rate_limit_messages() {
    assert!(is_rate_limit_message("Rate limit reached for model"));
    assert!(is_rate_limit_message("You exceeded your QUOTA"));
    assert!(is_rate_limit_message("Too Many Requests"));
    assert!(!is_rate_limit_message("Invalid API key"));
    assert_eq!(GROQ_RATE_LIMIT_DEFAULT_WAIT_MINUTES, 1);
}

#[test]
fn reader_window_waits_for_the_oldest_request() {
    let mut w = JinaRequestWindow::new();
    assert_eq!(w.try_acquire(2, 0), None);
    assert_eq!(w.try_acquire(2, SEC), None);
    assert_eq!(w.try_acquire(2, 30 * SEC), Some(30 * SEC + 1_000_000));
    assert_eq!(w.try_acquire(2, 60 * SEC), None);
}

#[test]
fn request_ids_count_up_and_unknown_cancels_are_harmless() {
    let mut l = SlidingWindowLimiter::new(5, 1);
    assert_eq!(l.commit(0), 0);
    assert_eq!(l.commit(SEC), 1);
    assert_eq!(l.commit(2 * SEC), 2);
    assert_eq!(l.next_reservation_id(), 3);
    l.cancel(42);
    // All three requests are still counted: two more fit, then it is full.
    assert!(matches!(l.check("Groq", 3 * SEC), Ok(None)));
    l.commit(3 * SEC);
    l.commit(3 * SEC);
    assert!(matches!(l.check("Groq", 3 * SEC), Ok(Some(_))));
    // Cancelling the last one gives exactly its slot back.
    l.cancel(4);
    assert!(matches!(l.check("Groq", 3 * SEC), Ok(None)));
}

#[test]
fn reader_grants_at_most_the_limit_in_any_minute() {
    let mut w = JinaRequestWindow::new();
    let mut granted: Vec<u64> = Vec::new();
    for t in [0, SEC, 2 * SEC, 30 * SEC, 60 * SEC + SEC / 2, 61 * SEC, 62 * SEC, 121 * SEC] {
        if w.try_acquire(2, t).is_none() {
            granted.push(t);
        }
    }
    assert_eq!(granted, vec![0, SEC, 60 * SEC + SEC / 2, 61 * SEC, 121 * SEC]);
    for i in 0..granted.len().saturating_sub(2) {
        assert!(granted[i + 2] - granted[i] >= 60 * SEC);
    }
}
