use tlong::gate::{Admission, AdmissionGate};

#[test]
fn burst_beyond_bucket_and_queue_is_rejected_immediately() {
    let mut g = AdmissionGate::new(2, 1, 2, 0);
    // the bucket starts full
    assert_eq!(g.request(0), Admission::Admitted);
    assert_eq!(g.request(0), Admission::Admitted);
    // the bucket is empty: the queue takes the overflow
    assert_eq!(g.request(0), Admission::Queued);
    assert_eq!(g.request(0), Admission::Queued);
    // bucket and queue both full: immediate rejection
    assert_eq!(g.request(0), Admission::Rejected);
    assert_eq!(g.request(0), Admission::Rejected);
}

#[test]
fn refill_restores_tokens_at_the_configured_rate() {
    let mut g = AdmissionGate::new(1, 1, 0, 0);
    assert_eq!(g.request(0), Admission::Admitted);
    assert_eq!(g.request(0), Admission::Rejected);
    // one tick later one token has come back
    assert_eq!(g.request(1), Admission::Admitted);
    assert_eq!(g.request(1), Admission::Rejected);
}

#[test]
fn refill_never_exceeds_capacity() {
    let mut g = AdmissionGate::new(2, 5, 0, 0);
    // a long quiet period refills at most to capacity
    assert_eq!(g.request(1000), Admission::Admitted);
    assert_eq!(g.request(1000), Admission::Admitted);
    assert_eq!(g.request(1000), Admission::Rejected);
}

#[test]
fn queued_request_proceeds_after_a_refill() {
    let mut g = AdmissionGate::new(1, 1, 1, 0);
    assert_eq!(g.request(0), Admission::Admitted);
    assert_eq!(g.request(0), Admission::Queued);
    // no token yet: the queued request keeps waiting
    assert!(!g.admit_queued(0));
    // after a tick the refill lets it through
    assert!(g.admit_queued(1));
    // the queue is empty now
    assert!(!g.admit_queued(2));
}

#[test]
fn abandoned_wait_frees_its_queue_slot() {
    let mut g = AdmissionGate::new(1, 1, 1, 0);
    assert_eq!(g.request(0), Admission::Admitted);
    assert_eq!(g.request(0), Admission::Queued);
    // the queue is full: the next request is rejected
    assert_eq!(g.request(0), Admission::Rejected);
    // the waiting request gives up; its slot opens again
    assert!(g.abandon_queued());
    assert_eq!(g.request(0), Admission::Queued);
    // nobody else is waiting after that one is admitted
    assert!(g.admit_queued(1));
    assert!(!g.abandon_queued());
}

#[test]
fn clock_going_backwards_adds_no_tokens() {
    let mut g = AdmissionGate::new(1, 1, 0, 5);
    assert_eq!(g.request(5), Admission::Admitted);
    assert_eq!(g.request(3), Admission::Rejected);
}
