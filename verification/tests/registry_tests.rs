use rperf3::test_manager::TestRegistry;

#[test]
fn test_registry_add_get_remove() {
    let mut reg: TestRegistry<String> = TestRegistry::new();
    assert_eq!(reg.len(), 0);
    assert!(reg.get_test(7).is_none());

    reg.add_test(7, "first".to_string());
    reg.add_test(u128::MAX, "second".to_string());
    assert_eq!(reg.len(), 2);
    assert_eq!(reg.get_test(7).map(|s| s.as_str()), Some("first"));
    assert_eq!(reg.get_test(u128::MAX).map(|s| s.as_str()), Some("second"));

    // Registering again under an identifier replaces the test.
    reg.add_test(7, "replaced".to_string());
    assert_eq!(reg.len(), 2);
    assert_eq!(reg.get_test(7).map(|s| s.as_str()), Some("replaced"));

    assert_eq!(reg.remove_test(7), Some("replaced".to_string()));
    assert_eq!(reg.remove_test(7), None);
    assert!(reg.get_test(7).is_none());
    assert_eq!(reg.len(), 1);
}

#[test]
fn test_registry_ids() {
    let mut reg: TestRegistry<u32> = TestRegistry::new();
    assert!(reg.test_ids().is_empty());
    for id in [5u128, 1, 99, 1 << 100] {
        reg.add_test(id, 0);
    }
    reg.add_test(5, 1);
    let mut ids = reg.test_ids();
    ids.sort();
    assert_eq!(ids, vec![1, 5, 99, 1 << 100]);
}
