use vstd::prelude::*;

verus! {

/// How the total concurrency of a run is divided among the workers.
#[derive(Clone, Copy, Debug, PartialEq, Eq, Structural)]
pub enum ClusterDistributionMode {
    /// Every worker gets the same share.
    Even,
    /// Every worker gets a share in proportion to the capacity it
    /// declares.
    MaxPower,
}

/// The share of one of `live` workers when `total` is split evenly: the
/// quotient rounded down, but never less than one.
pub open spec fn even_share_spec(total: int, live: int) -> int
    recommends
        live > 0,
{
    if total / live >= 1 {
        total / live
    } else {
        1
    }
}

/// The share of a worker of capacity `capacity` in a fleet whose
/// capacities add up to `capacity_sum`: its proportion of `total` rounded
/// down, but never less than one.
pub open spec fn weighted_share_spec(total: int, capacity: int, capacity_sum: int) -> int
    recommends
        capacity_sum > 0,
{
    if (total * capacity) / capacity_sum >= 1 {
        (total * capacity) / capacity_sum
    } else {
        1
    }
}

/// The share of one worker under a distribution mode.
pub open spec fn share_spec(
    mode: ClusterDistributionMode,
    total: int,
    live: int,
    capacity: int,
    capacity_sum: int,
) -> int {
    match mode {
        ClusterDistributionMode::Even => even_share_spec(total, live),
        ClusterDistributionMode::MaxPower => weighted_share_spec(total, capacity, capacity_sum),
    }
}

/// Splits `total` evenly over `live` workers.
pub fn even_share(total: u32, live: usize) -> (share: u32)
    requires
        live > 0,
    ensures
        share as int == even_share_spec(total as int, live as int),
        share >= 1,
{
    let quotient: u64 = total as u64 / live as u64;
    assert(quotient <= total) by (nonlinear_arith)
        requires
            quotient == total as int / live as int,
            live > 0,
    ;
    if quotient >= 1 {
        quotient as u32
    } else {
        1
    }
}

/// Gives a worker its share of `total` in proportion to its capacity.
pub fn weighted_share(total: u32, capacity: u32, capacity_sum: u64) -> (share: u32)
    requires
        0 < capacity_sum,
        capacity <= capacity_sum,
    ensures
        share as int == weighted_share_spec(total as int, capacity as int, capacity_sum as int),
        share >= 1,
{
    assert(total * capacity <= u64::MAX) by (nonlinear_arith)
        requires
            total <= u32::MAX,
            capacity <= u32::MAX,
    ;
    let product: u64 = total as u64 * capacity as u64;
    let quotient: u64 = product / capacity_sum;
    assert(quotient <= total) by (nonlinear_arith)
        requires
            quotient == (total * capacity) / (capacity_sum as int),
            0 <= capacity <= capacity_sum,
            0 < capacity_sum,
            0 <= total,
    ;
    if quotient >= 1 {
        quotient as u32
    } else {
        1
    }
}

/// Gives a worker its share of `total` under the mode `mode`.
pub fn share(
    mode: ClusterDistributionMode,
    total: u32,
    live: usize,
    capacity: u32,
    capacity_sum: u64,
) -> (share: u32)
    requires
        live > 0,
        0 < capacity_sum,
        capacity <= capacity_sum,
    ensures
        share as int == share_spec(
            mode,
            total as int,
            live as int,
            capacity as int,
            capacity_sum as int,
        ),
        share >= 1,
{
    match mode {
        ClusterDistributionMode::Even => even_share(total, live),
        ClusterDistributionMode::MaxPower => weighted_share(total, capacity, capacity_sum),
    }
}

/// Every share is at least one, under either mode.
pub proof fn lemma_share_at_least_one(
    mode: ClusterDistributionMode,
    total: int,
    live: int,
    capacity: int,
    capacity_sum: int,
)
    ensures
        share_spec(mode, total, live, capacity, capacity_sum) >= 1,
{
}

/// An even share is the exact quotient rounded down: while there are at
/// most as many workers as units, the shares of all workers together stay
/// within the total and miss it by less than one unit per worker.
pub proof fn lemma_even_share_rounding(total: int, live: int)
    requires
        0 < live <= total,
    ensures
        even_share_spec(total, live) * live <= total,
        total < (even_share_spec(total, live) + 1) * live,
{
    assert(total / live >= 1 && (total / live) * live <= total && total < (total / live + 1) * live)
        by (nonlinear_arith)
        requires
            0 < live <= total,
    ;
}

/// With more workers than units every worker still gets one unit, so the
/// shares together exceed the total.
pub proof fn lemma_even_share_floor_of_one(total: int, live: int)
    requires
        0 <= total < live,
    ensures
        even_share_spec(total, live) == 1,
        even_share_spec(total, live) * live > total,
{
    assert(total / live == 0) by (nonlinear_arith)
        requires
            0 <= total < live,
    ;
}

/// Workers of equal capacity get the even share under the weighted mode.
pub proof fn lemma_equal_capacities_share_evenly(total: int, live: int, capacity: int)
    requires
        0 <= total,
        0 < live,
        0 < capacity,
    ensures
        weighted_share_spec(total, capacity, capacity * live) == even_share_spec(total, live),
{
    assert((total * capacity) / (capacity * live) == total / live) by (nonlinear_arith)
        requires
            0 <= total,
            0 < live,
            0 < capacity,
    ;
}

} // verus!
