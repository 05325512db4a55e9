use price_oracle::wide::{le, mul_small, one, padded, quotient, sum, zero};

fn number(limbs: &[u64]) -> u128 {
    limbs.iter().rev().fold(0u128, |n, limb| (n << 64) | *limb as u128)
}

fn limbs(n: u128) -> Vec<u64> {
    vec![n as u64, (n >> 64) as u64]
}

#[test]
fn one_and_zero() {
    assert_eq!(one(), vec![1]);
    assert_eq!(zero(), vec![0]);
}

#[test]
fn padding_keeps_the_number() {
    assert_eq!(padded(&vec![7, 9], 4), vec![7, 9, 0, 0]);
    assert_eq!(padded(&vec![7, 9], 2), vec![7, 9]);
    assert_eq!(padded(&vec![], 1), vec![0]);
}

#[test]
fn product_with_one_limb_carries() {
    assert_eq!(mul_small(&vec![], 5), vec![0]);
    assert_eq!(mul_small(&vec![3], 5), vec![15, 0]);
    let got = mul_small(&vec![u64::MAX], u64::MAX);
    assert_eq!(number(&got), u64::MAX as u128 * u64::MAX as u128);
    let got = mul_small(&vec![u64::MAX, u64::MAX], u64::MAX);
    assert_eq!(got, vec![1, u64::MAX, u64::MAX - 1]);
    assert_eq!(mul_small(&vec![1, 2, 3], 0), vec![0, 0, 0, 0]);
}

#[test]
fn sum_carries() {
    assert_eq!(sum(&vec![1], &vec![2]), vec![3, 0]);
    assert_eq!(sum(&vec![u64::MAX], &vec![1]), vec![0, 1]);
    assert_eq!(sum(&vec![u64::MAX, u64::MAX], &vec![u64::MAX, u64::MAX]), vec![u64::MAX - 1, u64::MAX, 1]);
    assert_eq!(sum(&vec![], &vec![]), vec![0]);
    assert_eq!(sum(&vec![u64::MAX, u64::MAX, 7], &vec![1]), vec![0, 0, 8, 0]);
    assert_eq!(sum(&vec![1], &vec![u64::MAX, u64::MAX, 7]), vec![0, 0, 8, 0]);
}

#[test]
fn order_goes_by_the_top_limb() {
    assert!(le(&vec![5, 1], &vec![0, 2]));
    assert!(!le(&vec![0, 2], &vec![5, 1]));
    assert!(le(&vec![5, 1], &vec![5, 1]));
    assert!(le(&vec![4, 1], &vec![5, 1]));
    assert!(!le(&vec![6, 1], &vec![5, 1]));
    assert!(le(&vec![], &vec![]));
    assert!(le(&vec![9, 0, 0], &vec![1, 1, 0]));
    assert!(le(&vec![9], &vec![1, 1]));
    assert!(!le(&vec![1, 1], &vec![9]));
    assert!(le(&vec![9, 0, 0], &vec![9]));
    assert!(le(&vec![], &vec![0, 0]));
}

#[test]
fn quotient_rounds_down() {
    assert_eq!(quotient(&vec![7], &vec![2]), Some(3));
    assert_eq!(quotient(&vec![0], &vec![9]), Some(0));
    assert_eq!(quotient(&vec![6, 0, 0], &vec![2]), Some(3));
    assert_eq!(quotient(&vec![8], &vec![9, 0, 0]), Some(0));
    let n = u64::MAX as u128 * u64::MAX as u128 + 5;
    assert_eq!(quotient(&limbs(n), &vec![u64::MAX]), Some(u64::MAX));
    let d = 0x1_0000_0000_0000_0001u128;
    let n = d * (1u128 << 63) + (d - 1);
    assert_eq!(quotient(&limbs(n), &limbs(d)), Some(1u64 << 63));
    assert_eq!(quotient(&limbs(n + 1), &limbs(d)), Some((1u64 << 63) + 1));
    for (n, d) in [(1u128 << 100, 1u128 << 40), (987_654_321_987_654_321_987, 123_456_789_123)] {
        assert_eq!(quotient(&limbs(n), &limbs(d)), Some((n / d) as u64));
    }
}

#[test]
fn quotient_has_limits() {
    assert_eq!(quotient(&vec![7], &vec![0]), None);
    assert_eq!(quotient(&vec![7], &vec![]), None);
    assert_eq!(quotient(&vec![0], &vec![0, 0]), None);
    assert_eq!(quotient(&vec![0, 1], &vec![1]), None);
    assert_eq!(quotient(&vec![u64::MAX, 0], &vec![1]), Some(u64::MAX));
    assert_eq!(quotient(&vec![0, 2], &vec![2]), None);
    assert_eq!(quotient(&vec![u64::MAX, 1], &vec![2]), Some(u64::MAX));
}
