//! The triple-buffer handoff: role permutation and staleness.

use r3de::tribuf::TripState;

fn is_permutation(t: &TripState) -> bool {
    let mut seen = [false; 3];
    for &i in [t.ready, t.in_progress, t.presented].iter() {
        if i >= 3 || seen[i] {
            return false;
        }
        seen[i] = true;
    }
    true
}

#[test]
fn startup_assignment() {
    let t = TripState::new();
    assert_eq!(t.ready, 0);
    assert_eq!(t.in_progress, 1);
    assert_eq!(t.presented, 2);
    assert!(t.stale);
    assert!(is_permutation(&t));
}

#[test]
fn producer_swaps_ready_and_in_progress() {
    let mut t = TripState::new();
    t.producer_publish();
    assert_eq!(t.ready, 1);
    assert_eq!(t.in_progress, 0);
    assert_eq!(t.presented, 2);
    assert!(!t.stale);
}

#[test]
fn consumer_claims_fresh_frame_once() {
    let mut t = TripState::new();
    t.producer_publish();
    let shown = t.consumer_claim();
    assert_eq!(shown, 1); // the buffer the producer just finished
    assert_eq!(t.ready, 2);
    assert_eq!(t.presented, 1);
    assert!(t.stale);
    // a second claim without a new frame changes nothing
    let again = t.consumer_claim();
    assert_eq!(again, 1);
    assert_eq!(t.ready, 2);
    assert_eq!(t.presented, 1);
}

#[test]
fn consumer_without_fresh_frame_keeps_presented() {
    let mut t = TripState::new();
    let shown = t.consumer_claim();
    assert_eq!(shown, 2);
    assert_eq!(t.ready, 0);
}

#[test]
fn random_interleavings_keep_the_permutation() {
    let mut t = TripState::new();
    let mut rng: u64 = 0x1234_5678_9abc_def0;
    for _ in 0..20000 {
        rng = rng
            .wrapping_mul(6364136223846793005)
            .wrapping_add(1442695040888963407);
        if (rng >> 33) & 1 == 0 {
            t.producer_publish();
        } else {
            let shown = t.consumer_claim();
            assert_ne!(shown, t.in_progress);
            assert_eq!(shown, t.presented);
        }
        assert!(is_permutation(&t));
        assert_ne!(t.in_progress, t.presented);
        assert_ne!(t.ready, t.in_progress);
        assert_ne!(t.ready, t.presented);
    }
}

#[test]
fn producer_never_reuses_presented_buffer() {
    // the render target after a publish is the former ready slot, never
    // the buffer being shown
    let mut t = TripState::new();
    for step in 0..100 {
        if step % 3 == 0 {
            let _ = t.consumer_claim();
        }
        t.producer_publish();
        assert_ne!(t.in_progress, t.presented);
    }
}
