use bunker_cli::runtime_map::RuntimeHashMap;

#[test]
fn test_new_map_is_empty() {
    let m = RuntimeHashMap::new();
    assert_eq!(m.capacity, 16);
    assert_eq!(m.len(), 0);
    assert!(!m.contains(7));
    assert_eq!(m.get(7), 0);
    assert!(m.keys().is_empty());
}

#[test]
fn test_insert_get_update() {
    let mut m = RuntimeHashMap::new();
    assert!(m.insert(1, 100));
    assert!(m.insert(2, 200));
    assert_eq!(m.get(1), 100);
    assert_eq!(m.get(2), 200);
    assert!(m.insert(1, 111));
    assert_eq!(m.get(1), 111);
    assert_eq!(m.len(), 2);
    assert!(m.contains(2));
    assert!(!m.contains(3));
}

#[test]
fn test_keys_in_slot_order() {
    // Key 5 starts probing at slot 0 and key 4 at slot 1.
    let mut m = RuntimeHashMap::new();
    m.insert(4, 40);
    m.insert(5, 50);
    assert_eq!(m.keys(), vec![5, 4]);
}

#[test]
fn test_grows_at_three_quarters() {
    let mut m = RuntimeHashMap::new();
    for k in 1..=12 {
        assert!(m.insert(k, k * 10));
    }
    assert_eq!(m.capacity, 16);
    assert!(m.insert(13, 130));
    assert_eq!(m.capacity, 32);
    assert_eq!(m.len(), 13);
    for k in 1..=13 {
        assert_eq!(m.get(k), k * 10);
    }
}

#[test]
fn test_remove_and_clear() {
    let mut m = RuntimeHashMap::new();
    m.insert(10, 1);
    m.insert(11, 2);
    assert!(m.remove(10));
    assert!(!m.remove(10));
    assert!(!m.contains(10));
    assert_eq!(m.get(11), 2);
    assert_eq!(m.len(), 1);
    m.clear();
    assert_eq!(m.len(), 0);
    assert!(!m.contains(11));
    assert_eq!(m.capacity, 16);
}

#[test]
fn test_colliding_keys_probe_linearly() {
    // Keys 5 and 21 both start probing at slot 0.
    let mut m = RuntimeHashMap::new();
    m.insert(5, 1);
    m.insert(21, 2);
    assert_eq!(m.entries[0].key, 5);
    assert_eq!(m.entries[1].key, 21);
    assert_eq!(m.get(21), 2);
}

#[test]
fn test_remove_keeps_colliding_key() {
    // Keys 5 and 21 both start probing at slot 0; removing 5 leaves a
    // marker, so 21 behind it is still found.
    let mut m = RuntimeHashMap::new();
    assert!(m.insert(5, 1));
    assert!(m.insert(21, 2));
    assert!(m.remove(5));
    assert!(!m.contains(5));
    assert!(m.contains(21));
    assert_eq!(m.get(21), 2);
    assert_eq!(m.len(), 1);
    assert!(m.insert(21, 3));
    assert_eq!(m.get(21), 3);
    assert_eq!(m.len(), 1);
    assert_eq!(m.keys(), vec![21]);
    assert!(m.insert(5, 4));
    assert_eq!(m.get(5), 4);
    assert_eq!(m.len(), 2);
}

#[test]
fn test_markers_count_towards_growth() {
    let mut m = RuntimeHashMap::new();
    for k in 1..=12 {
        m.insert(k, k);
        m.remove(k);
    }
    assert_eq!(m.len(), 0);
    assert_eq!(m.capacity, 16);
    m.insert(100, 1);
    assert_eq!(m.capacity, 32);
    assert_eq!(m.get(100), 1);
    assert_eq!(m.len(), 1);
}

#[test]
fn test_insert_keeps_other_keys() {
    let mut m = RuntimeHashMap::new();
    m.insert(5, 1);
    m.insert(21, 2);
    m.insert(37, 3);
    m.insert(21, 20);
    assert_eq!(m.get(5), 1);
    assert_eq!(m.get(37), 3);
    assert_eq!(m.get(21), 20);
    assert_eq!(m.len(), 3);
}
