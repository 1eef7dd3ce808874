use asset::{Handle, Slot};

#[test]
fn token_sees_nothing_before_publication() {
    let slot: Slot<u32> = Slot::new();
    let token = slot.token();
    assert!(token.handle().is_none());
    let handle = slot.store(5);
    assert_eq!(*handle.get(), 5);
    let seen = token.handle().unwrap();
    assert_eq!(*seen.get(), 5);
    assert!(Handle::ptr_eq(&handle, &seen));
}

#[test]
fn every_token_sees_the_published_value() {
    let slot: Slot<String> = Slot::new();
    let first = slot.token();
    let second = first.clone();
    let third = slot.token();
    let handle = slot.store("ready".to_string());
    for token in [first, second, third] {
        let seen = token.handle().unwrap();
        assert_eq!(seen.get(), "ready");
        assert!(Handle::ptr_eq(&handle, &seen));
    }
}

#[test]
fn handle_new_is_filled() {
    let handle = Handle::new(vec![1u8, 2, 3]);
    assert_eq!(handle.get(), &vec![1u8, 2, 3]);
    let copy = handle.clone();
    assert!(Handle::ptr_eq(&handle, &copy));
}

#[test]
fn equal_values_are_distinct_instances() {
    let a = Handle::new(7u64);
    let b = Handle::new(7u64);
    assert!(!Handle::ptr_eq(&a, &b));
}
