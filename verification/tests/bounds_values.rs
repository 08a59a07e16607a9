use pool_xyk::bounds::Bounds;

#[test]
fn bounds_carry_their_amount() {
    assert_eq!(Bounds::<u128>::Unset.value(), None);
    assert_eq!(Bounds::Desired(5u128).value(), Some(5));
    assert_eq!(Bounds::Min(6u128).value(), Some(6));
    assert_eq!(Bounds::Max(7u128).value(), Some(7));
    assert_eq!(Bounds::Calculated(8u128).value(), Some(8));
    assert!(Bounds::<u128>::Unset.is_unset());
    assert!(!Bounds::Desired(0u128).is_unset());
    let b = Bounds::Min(9u64);
    let c = b;
    assert_eq!(b, c.clone());
}
