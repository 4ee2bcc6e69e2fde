use chat_relay::registry::ConnectionRegistry;

fn registry_of(count: u64) -> ConnectionRegistry {
    let mut registry = ConnectionRegistry::new();
    for expected in 0..count {
        assert_eq!(registry.register(), Some(expected));
    }
    registry
}

#[test]
fn new_registry_is_empty() {
    let registry = ConnectionRegistry::new();
    assert!(registry.is_empty());
    assert_eq!(registry.len(), 0);
    assert_eq!(registry.connections(), Vec::<u64>::new());
    assert!(!registry.contains(0));
}

#[test]
fn register_issues_handles_in_order() {
    let mut registry = ConnectionRegistry::new();
    assert_eq!(registry.register(), Some(0));
    assert_eq!(registry.register(), Some(1));
    assert_eq!(registry.register(), Some(2));
    assert_eq!(registry.connections(), vec![0, 1, 2]);
    assert_eq!(registry.len(), 3);
    assert!(!registry.is_empty());
    assert!(registry.contains(1));
    assert!(!registry.contains(3));
}

#[test]
fn handles_are_never_reused() {
    let mut registry = registry_of(3);
    assert!(registry.remove(2));
    assert!(registry.remove(0));
    assert_eq!(registry.register(), Some(3));
    assert_eq!(registry.connections(), vec![1, 3]);
}

#[test]
fn remove_drops_one_connection() {
    let mut registry = registry_of(4);
    assert!(registry.remove(1));
    assert_eq!(registry.connections(), vec![0, 2, 3]);
    assert!(!registry.contains(1));
    assert_eq!(registry.len(), 3);
}

#[test]
fn remove_of_unknown_connection_changes_nothing() {
    let mut registry = registry_of(2);
    assert!(!registry.remove(7));
    assert_eq!(registry.connections(), vec![0, 1]);
    assert!(registry.remove(0));
    assert!(!registry.remove(0));
    assert_eq!(registry.connections(), vec![1]);
}

#[test]
fn remove_all_keeps_the_others_in_order() {
    let mut registry = registry_of(6);
    registry.remove_all(&vec![4, 1]);
    assert_eq!(registry.connections(), vec![0, 2, 3, 5]);
    registry.remove_all(&vec![0, 5, 9, 0]);
    assert_eq!(registry.connections(), vec![2, 3]);
}

#[test]
fn remove_all_of_nothing_changes_nothing() {
    let mut registry = registry_of(3);
    registry.remove_all(&vec![]);
    assert_eq!(registry.connections(), vec![0, 1, 2]);
}

#[test]
fn remove_all_of_everything_empties() {
    let mut registry = registry_of(3);
    registry.remove_all(&vec![2, 1, 0]);
    assert!(registry.is_empty());
    assert_eq!(registry.register(), Some(3));
}

#[test]
fn connections_except_leaves_one_out() {
    let registry = registry_of(4);
    assert_eq!(registry.connections_except(2), vec![0, 1, 3]);
    assert_eq!(registry.connections_except(0), vec![1, 2, 3]);
    assert_eq!(registry.connections_except(9), vec![0, 1, 2, 3]);
    assert_eq!(registry.connections(), vec![0, 1, 2, 3]);
}
