use bunker_cli::runtime_values::{
    result_err, result_is_err, result_is_ok, result_ok, result_tag, result_unwrap,
    result_unwrap_err, result_value, RuntimeVec,
};

#[test]
fn test_vec_push_grows_by_doubling() {
    let mut v = RuntimeVec::new();
    assert_eq!(v.capacity, 8);
    for i in 0..8 {
        assert_eq!(v.push(i * 2), (i + 1) as usize);
    }
    assert_eq!(v.capacity, 8);
    assert_eq!(v.push(99), 9);
    assert_eq!(v.capacity, 16);
    assert_eq!(v.len(), 9);
    assert_eq!(v.get(8), 99);
    assert_eq!(v.get(3), 6);
}

#[test]
fn test_vec_bounds_and_pop() {
    let mut v = RuntimeVec::new();
    assert_eq!(v.pop(), 0);
    v.push(5);
    v.push(7);
    assert_eq!(v.get(-1), 0);
    assert_eq!(v.get(2), 0);
    assert!(v.set(1, 70));
    assert!(!v.set(2, 1));
    assert_eq!(v.get(1), 70);
    assert_eq!(v.pop(), 70);
    assert_eq!(v.len(), 1);
    v.clear();
    assert_eq!(v.len(), 0);
    assert_eq!(v.capacity, 8);
}

#[test]
fn test_results() {
    let ok = result_ok(42);
    let err = result_err(7);
    assert!(result_is_ok(Some(&ok)));
    assert!(!result_is_err(Some(&ok)));
    assert!(result_is_err(Some(&err)));
    assert_eq!(result_unwrap(Some(&ok)), 42);
    assert_eq!(result_unwrap(Some(&err)), 0);
    assert_eq!(result_unwrap_err(Some(&err)), 7);
    assert_eq!(result_unwrap_err(Some(&ok)), 0);
    assert_eq!(result_tag(Some(&err)), 1);
    assert_eq!(result_value(Some(&err)), 7);
    assert!(!result_is_ok(None));
    assert!(result_is_err(None));
    assert_eq!(result_tag(None), 1);
    assert_eq!(result_value(None), 0);
    assert_eq!(result_unwrap(None), 0);
}
