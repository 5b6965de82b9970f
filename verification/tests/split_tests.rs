use boostagram::{calculate_splits, Error};

#[test]
fn split_pure_fee() {
    let r = calculate_splits(vec![(10, true)], 1000).unwrap();
    assert_eq!(r, vec![100]);
}

#[test]
fn split_shares_only() {
    let r = calculate_splits(vec![(50, false), (50, false)], 1000).unwrap();
    assert_eq!(r, vec![500, 500]);
}

#[test]
fn split_fee_and_shares() {
    let r = calculate_splits(vec![(10, true), (100, false)], 1000).unwrap();
    assert_eq!(r, vec![100, 900]);
}

#[test]
fn split_fee_sum_over_100_fails() {
    let r = calculate_splits(vec![(60, true), (50, true)], 1000);
    assert!(matches!(r, Err(Error::ParameterInvalid(_))));
}

#[test]
fn split_zero_share_sum_keeps_remainder_undistributed() {
    let r = calculate_splits(vec![(10, true)], 1000).unwrap();
    assert_eq!(r, vec![100]);
}

#[test]
fn split_uneven_shares_round_down() {
    let r = calculate_splits(vec![(1, false), (1, false), (1, false)], 1000).unwrap();
    assert_eq!(r, vec![333, 333, 333]);
    assert!(r.iter().sum::<u64>() <= 1000);
}

#[test]
fn split_fee_priority_with_shares() {
    let r = calculate_splits(vec![(50, true), (30, false), (70, false)], 200).unwrap();
    // fee takes 100; shares divide the remaining 50% of 200
    assert_eq!(r, vec![100, 30, 70]);
    assert!(r.iter().sum::<u64>() <= 200);
}

#[test]
fn split_empty_request() {
    let r = calculate_splits(vec![], 1000).unwrap();
    assert_eq!(r, Vec::<u64>::new());
}

#[test]
fn split_sum_never_exceeds_amount() {
    let r = calculate_splits(vec![(33, true), (33, false), (34, false), (7, false)], 12345)
        .unwrap();
    assert!(r.iter().sum::<u64>() <= 12345);
}
