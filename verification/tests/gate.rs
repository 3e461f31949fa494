use fileserver::gate::AdmissionGate;

#[test]
fn gate_starts_with_full_capacity() {
    let g = AdmissionGate::new(10);
    assert_eq!(g.free_slots, 10);
    assert_eq!(g.max_connections, 10);
    assert_eq!(g.active(), 0);
}

#[test]
fn acquire_succeeds_until_saturated() {
    let mut g = AdmissionGate::new(2);
    assert!(g.try_acquire());
    assert!(g.try_acquire());
    assert!(!g.try_acquire());
    assert_eq!(g.active(), 2);
    g.release();
    assert!(g.try_acquire());
}

// A failed download still releases its slot, so the free
// count returns to its pre-request value.
#[test]
fn release_restores_the_slot_count() {
    let mut g = AdmissionGate::new(5);
    assert!(g.try_acquire());
    assert!(g.try_acquire());
    let before = g.free_slots;
    assert!(g.try_acquire());
    g.release();
    assert_eq!(g.free_slots, before);
}

// The reported load never exceeds the configured maximum and
// never goes negative.
#[test]
fn active_count_stays_within_capacity() {
    let mut g = AdmissionGate::new(3);
    for _ in 0..5 {
        g.try_acquire();
        assert!(g.active() <= g.max_connections);
    }
    assert_eq!(g.active(), 3);
    for _ in 0..3 {
        g.release();
        assert!(g.active() <= g.max_connections);
    }
    assert_eq!(g.active(), 0);
}

#[test]
fn zero_capacity_gate_admits_nothing() {
    let mut g = AdmissionGate::new(0);
    assert!(!g.try_acquire());
    assert_eq!(g.active(), 0);
}
