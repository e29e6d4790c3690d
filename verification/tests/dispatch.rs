use loadfleet::dispatch::{even_share, share, weighted_share, ClusterDistributionMode};

#[test]
fn even_share_is_the_floor_of_the_quotient() {
    assert_eq!(even_share(10, 1), 10);
    assert_eq!(even_share(10, 2), 5);
    assert_eq!(even_share(10, 3), 3);
    assert_eq!(even_share(10, 4), 2);
    assert_eq!(even_share(10, 10), 1);
    assert_eq!(even_share(u32::MAX, 1), u32::MAX);
    assert_eq!(even_share(u32::MAX, 2), 2_147_483_647);
}

#[test]
fn even_share_is_never_below_one() {
    assert_eq!(even_share(0, 1), 1);
    assert_eq!(even_share(0, 7), 1);
    assert_eq!(even_share(3, 4), 1);
    assert_eq!(even_share(10, 11), 1);
    assert_eq!(even_share(10, usize::MAX), 1);
}

#[test]
fn even_shares_stay_within_one_unit_of_the_total() {
    for total in 0u32..60 {
        for live in 1usize..20 {
            let each = even_share(total, live) as u64;
            assert!(each >= 1);
            if live as u64 <= total as u64 {
                assert!(each * live as u64 <= total as u64);
                assert!((total as u64) < (each + 1) * live as u64);
            } else {
                assert_eq!(each, 1);
                assert!(each * live as u64 > total as u64);
            }
        }
    }
}

#[test]
fn weighted_share_is_proportional() {
    assert_eq!(weighted_share(100, 1, 4), 25);
    assert_eq!(weighted_share(100, 3, 4), 75);
    assert_eq!(weighted_share(100, 4, 4), 100);
    assert_eq!(weighted_share(10, 1, 3), 3);
    assert_eq!(weighted_share(10, 2, 3), 6);
    assert_eq!(weighted_share(u32::MAX, u32::MAX, u32::MAX as u64), u32::MAX);
    assert_eq!(weighted_share(u32::MAX, 1, u64::MAX), 1);
}

#[test]
fn weighted_share_is_never_below_one() {
    assert_eq!(weighted_share(0, 1, 1), 1);
    assert_eq!(weighted_share(5, 0, 9), 1);
    assert_eq!(weighted_share(5, 1, 9), 1);
}

#[test]
fn equal_capacities_give_the_even_share() {
    for total in 0u32..40 {
        for live in 1usize..12 {
            for capacity in 1u32..4 {
                assert_eq!(
                    weighted_share(total, capacity, capacity as u64 * live as u64),
                    even_share(total, live)
                );
            }
        }
    }
}

#[test]
fn share_follows_the_mode() {
    assert_eq!(share(ClusterDistributionMode::Even, 12, 4, 3, 4), 3);
    assert_eq!(share(ClusterDistributionMode::MaxPower, 12, 4, 3, 4), 9);
    assert_eq!(share(ClusterDistributionMode::Even, 1, 4, 1, 4), 1);
    assert_eq!(share(ClusterDistributionMode::MaxPower, 1, 4, 1, 4), 1);
}
