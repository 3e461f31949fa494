use fileserver::registry::ConnectionRegistry;

#[test]
fn ids_start_at_zero_and_increase() {
    let mut r = ConnectionRegistry::new();
    assert_eq!(r.len(), 0);
    assert_eq!(r.register(), 0);
    assert_eq!(r.register(), 1);
    assert_eq!(r.register(), 2);
    assert_eq!(r.len(), 3);
    assert_eq!(r.ids(), vec![0, 1, 2]);
    assert_eq!(r.next_id(), 3);
}

// A subscriber whose connection failed is pruned, and the
// other subscribers are untouched.
#[test]
fn pruning_removes_only_the_dead_ids() {
    let mut r = ConnectionRegistry::new();
    r.register();
    r.register();
    r.register();
    r.prune(&vec![1]);
    assert_eq!(r.ids(), vec![0, 2]);
    assert!(r.contains(0));
    assert!(!r.contains(1));
    assert!(r.contains(2));
}

#[test]
fn pruning_an_unknown_id_changes_nothing() {
    let mut r = ConnectionRegistry::new();
    r.register();
    r.register();
    r.prune(&vec![77]);
    assert_eq!(r.ids(), vec![0, 1]);
}

#[test]
fn a_pruned_id_is_never_reused() {
    let mut r = ConnectionRegistry::new();
    r.register();
    r.prune(&vec![0]);
    assert_eq!(r.register(), 1);
    assert_eq!(r.ids(), vec![1]);
}
