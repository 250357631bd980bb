use p2pool_core::peers::PeerSet;

#[test]
fn test_peer_set_insert_and_contains() {
    let mut set = PeerSet::new();
    assert!(!set.contains(3));
    set.insert(3);
    assert!(set.contains(3));
    assert_eq!(set.len(), 1);
}

#[test]
fn test_peer_set_insert_twice_keeps_one() {
    let mut set = PeerSet::new();
    set.insert(3);
    set.insert(3);
    assert_eq!(set.len(), 1);
    assert_eq!(set.to_vec(), vec![3]);
}

#[test]
fn test_peer_set_remove() {
    let mut set = PeerSet::new();
    set.insert(1);
    set.insert(2);
    set.insert(3);
    set.remove(2);
    assert!(!set.contains(2));
    assert!(set.contains(1));
    assert!(set.contains(3));
    assert_eq!(set.len(), 2);
}

#[test]
fn test_peer_set_remove_absent_changes_nothing() {
    let mut set = PeerSet::new();
    set.insert(1);
    set.remove(9);
    assert_eq!(set.to_vec(), vec![1]);
}
