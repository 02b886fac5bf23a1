//! Folding a coordinate plus a signed offset back into the range of valid
//! coordinates.

use vstd::prelude::*;

verus! {

/// The coordinate that `coord + offset` folds to in `[0, extent)`: a sum
/// below zero is mirrored to its absolute value first, then the remainder by
/// `extent` is taken. Below zero the fold reflects: it does not come in from
/// the far end.
pub open spec fn wrap(coord: int, offset: int, extent: int) -> int {
    let sum = coord + offset;
    if sum < 0 {
        (-sum) % extent
    } else {
        sum % extent
    }
}

/// Folds `num + add` into `[0, max)`.
pub fn wrap_u32(num: u32, add: i32, max: u32) -> (folded: u32)
    requires
        max > 0,
    ensures
        folded == wrap(num as int, add as int, max as int),
        folded < max,
        add == 0 && num < max ==> folded == num,
{
    let sum: i64 = num as i64 + add as i64;
    proof {
        if add == 0 && num < max {
            lemma_wrap_zero_offset(num as int, max as int);
        }
    }
    if sum < 0 {
        ((-sum) % (max as i64)) as u32
    } else {
        (sum % (max as i64)) as u32
    }
}

/// A folded coordinate is a valid coordinate.
pub proof fn lemma_wrap_in_range(coord: int, offset: int, extent: int)
    requires
        extent > 0,
    ensures
        0 <= wrap(coord, offset, extent) < extent,
{
}

/// Without an offset, a valid coordinate folds to itself.
pub proof fn lemma_wrap_zero_offset(coord: int, extent: int)
    requires
        0 <= coord < extent,
    ensures
        wrap(coord, 0, extent) == coord,
{
    vstd::arithmetic::div_mod::lemma_small_mod(coord as nat, extent as nat);
}

} // verus!
