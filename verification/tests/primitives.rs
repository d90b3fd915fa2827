use erc1155::{Address, U256};

#[test]
fn zero_address_is_zero() {
    assert!(Address::zero().is_zero());
    assert_eq!(Address::zero().into_array(), [0u8; 20]);
    assert!(Address::new([0u8; 20]).is_zero());
}

#[test]
fn address_with_one_set_byte_is_not_zero() {
    let mut bytes = [0u8; 20];
    bytes[19] = 1;
    assert!(!Address::new(bytes).is_zero());
    let mut first = [0u8; 20];
    first[0] = 0x80;
    assert!(!Address::new(first).is_zero());
}

#[test]
fn address_same_as_compares_all_bytes() {
    let mut bytes = [7u8; 20];
    let a = Address::new(bytes);
    assert!(a.same_as(&Address::new([7u8; 20])));
    bytes[19] = 8;
    assert!(!a.same_as(&Address::new(bytes)));
    assert_eq!(a, Address::new([7u8; 20]));
    assert_ne!(a, Address::new(bytes));
}

#[test]
fn u256_from_u64_fills_the_lowest_limb() {
    assert_eq!(U256::from_u64(42).into_limbs(), [42, 0, 0, 0]);
    assert_eq!(U256::zero().into_limbs(), [0, 0, 0, 0]);
    assert_eq!(U256::max().into_limbs(), [u64::MAX; 4]);
}

#[test]
fn u256_from_usize_matches_from_u64() {
    assert_eq!(U256::from_usize(0), U256::zero());
    assert_eq!(U256::from_usize(3), U256::from_u64(3));
    assert_eq!(U256::from_usize(usize::MAX).into_limbs(), [usize::MAX as u64, 0, 0, 0]);
}

#[test]
fn checked_add_small_values() {
    assert_eq!(U256::from_u64(2).checked_add(U256::from_u64(3)), Some(U256::from_u64(5)));
    assert_eq!(U256::zero().checked_add(U256::zero()), Some(U256::zero()));
}

#[test]
fn checked_add_carries_into_the_next_limb() {
    let a = U256::from_limbs([u64::MAX, 0, 0, 0]);
    assert_eq!(a.checked_add(U256::from_u64(1)), Some(U256::from_limbs([0, 1, 0, 0])));
    let b = U256::from_limbs([u64::MAX, u64::MAX, u64::MAX, 0]);
    assert_eq!(b.checked_add(U256::from_u64(1)), Some(U256::from_limbs([0, 0, 0, 1])));
}

#[test]
fn checked_add_overflow_is_none() {
    assert_eq!(U256::max().checked_add(U256::from_u64(1)), None);
    assert_eq!(U256::max().checked_add(U256::max()), None);
    assert_eq!(U256::max().checked_add(U256::zero()), Some(U256::max()));
    let top = U256::from_limbs([0, 0, 0, 1 << 63]);
    assert_eq!(top.checked_add(top), None);
}

#[test]
fn checked_sub_small_values() {
    assert_eq!(U256::from_u64(5).checked_sub(U256::from_u64(3)), Some(U256::from_u64(2)));
    assert_eq!(U256::from_u64(5).checked_sub(U256::from_u64(5)), Some(U256::zero()));
}

#[test]
fn checked_sub_borrows_from_the_next_limb() {
    let a = U256::from_limbs([0, 1, 0, 0]);
    assert_eq!(a.checked_sub(U256::from_u64(1)), Some(U256::from_limbs([u64::MAX, 0, 0, 0])));
    let b = U256::from_limbs([0, 0, 0, 1]);
    assert_eq!(
        b.checked_sub(U256::from_u64(1)),
        Some(U256::from_limbs([u64::MAX, u64::MAX, u64::MAX, 0]))
    );
}

#[test]
fn checked_sub_underflow_is_none() {
    assert_eq!(U256::from_u64(3).checked_sub(U256::from_u64(5)), None);
    assert_eq!(U256::zero().checked_sub(U256::from_u64(1)), None);
    assert_eq!(U256::from_limbs([0, 0, 0, 1]).checked_sub(U256::max()), None);
}

#[test]
fn u256_same_as_compares_all_limbs() {
    let a = U256::from_limbs([1, 2, 3, 4]);
    assert!(a.same_as(&U256::from_limbs([1, 2, 3, 4])));
    assert!(!a.same_as(&U256::from_limbs([1, 2, 3, 5])));
    assert!(!a.same_as(&U256::from_limbs([0, 2, 3, 4])));
}
