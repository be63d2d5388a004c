//! The factor rule: the per-probe-position compatibility factor.

use vstd::prelude::*;

verus! {

/// The compatibility factor for one probe position, doubled so that it is an
/// integer: `1` stands for `0.5`, `10` for `5.0` and `-8` for `-4.0`.
///
/// `a_i`/`b_i` are the labels of the two sequences at the first physical
/// position of the probe pair, `a_i1`/`b_i1` the labels at the second.
pub open spec fn factor_doubled(
    a_i: Seq<char>,
    b_i: Seq<char>,
    a_i1: Seq<char>,
    b_i1: Seq<char>,
) -> int {
    if a_i != b_i {
        1
    } else if a_i1 == b_i1 {
        10
    } else {
        -8
    }
}

/// The factor rule on label values, returning the factor doubled: `1` where
/// the sequences disagree at the first position of the probe pair (factor
/// 0.5), `10` where they agree at both positions (factor 5.0), and `-8`
/// where they agree at the first position only (factor -4.0).
pub fn rho_elt_process(
    rho_a_i: &String,
    rho_b_i: &String,
    rho_a_i1: &String,
    rho_b_i1: &String,
) -> (r: i128)
    ensures
        r == factor_doubled(rho_a_i@, rho_b_i@, rho_a_i1@, rho_b_i1@),
{
    if *rho_a_i != *rho_b_i {
        1
    } else {
        if *rho_a_i1 == *rho_b_i1 {
            10
        } else {
            -8
        }
    }
}

} // verus!
