use aurora::refcount::ReferenceCount;

#[test]
fn test_new() {
    let r0 = ReferenceCount::new();

    assert_eq!(r0.value(), 1);
}

#[test]
fn test_clone() {
    let r0 = ReferenceCount::new();
    let r1 = r0.clone();

    assert_eq!(r0.value(), 2);
    assert_eq!(r1.value(), 2);
}
