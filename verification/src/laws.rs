//! Laws of the trace reduction: properties that hold of the engine's
//! mathematical model beyond the contracts of the individual functions.

use vstd::prelude::*;
use crate::engine::{
    expand, fits_i128, pair_fits, pair_num, pair_prefix, row_fits, row_num, row_prefix,
    total_fits, total_prefix, trace_num,
};

verus! {

proof fn lemma_pair_prefix_symmetric(a: Seq<Seq<char>>, b: Seq<Seq<char>>, idx: Seq<int>, k: int)
    ensures
        pair_prefix(a, b, idx, k) == pair_prefix(b, a, idx, k),
    decreases k,
{
    if k > 0 {
        lemma_pair_prefix_symmetric(a, b, idx, k - 1);
    }
}

/// Pair-score symmetry: the pair score of two sequences does not depend on
/// their order, because the factor rule is symmetric in the two sequences.
/// The checked computation overflows for one order exactly when it does for
/// the other.
pub proof fn lemma_pair_score_symmetry(a: Seq<Seq<char>>, b: Seq<Seq<char>>, idx: Seq<int>)
    ensures
        pair_num(a, b, idx) == pair_num(b, a, idx),
        pair_fits(a, b, idx) <==> pair_fits(b, a, idx),
{
    assert forall|k: int| pair_prefix(a, b, idx, k) == pair_prefix(b, a, idx, k) by {
        lemma_pair_prefix_symmetric(a, b, idx, k);
    }
}

proof fn lemma_empty_row_prefix(data: Seq<Seq<Seq<char>>>, idx: Seq<int>, i: int, upto: int)
    requires
        idx.len() == 0,
        0 <= i,
        i + 1 <= upto,
    ensures
        row_prefix(data, idx, i, upto) == upto - i - 1,
    decreases upto - i,
{
    if upto > i + 1 {
        lemma_empty_row_prefix(data, idx, i, upto - 1);
    }
}

proof fn lemma_empty_total_prefix(data: Seq<Seq<Seq<char>>>, idx: Seq<int>, upto: int)
    requires
        idx.len() == 0,
        0 <= upto <= data.len(),
    ensures
        2 * total_prefix(data, idx, upto) == upto * (2 * (data.len() as int) - upto - 1),
    decreases upto,
{
    let n = data.len() as int;
    if upto == 0 {
        assert(total_prefix(data, idx, 0) == 0);
        assert(upto * (2 * n - upto - 1) == 0) by (nonlinear_arith)
            requires
                upto == 0,
        ;
    }
    if upto > 0 {
        lemma_empty_total_prefix(data, idx, upto - 1);
        lemma_empty_row_prefix(data, idx, upto - 1, n);
        assert(row_num(data, idx, upto - 1) == n - upto);
        assert(total_prefix(data, idx, upto) == total_prefix(data, idx, upto - 1) + row_num(
            data,
            idx,
            upto - 1,
        ));
        assert(2 * total_prefix(data, idx, upto) == (upto - 1) * (2 * n - upto) + 2 * (n - upto));
        assert((upto - 1) * (2 * n - upto) + 2 * (n - upto) == upto * (2 * n - upto - 1))
            by (nonlinear_arith);
        assert(2 * total_prefix(data, idx, upto) == upto * (2 * n - upto - 1));
    }
}

/// With an empty probe-position set every pair contributes the empty
/// product, so the trace total numerator is the number of unordered pairs,
/// `n * (n - 1) / 2`, and the checked computation never overflows.
///
/// The one restriction is the machine limit that any dataset held in memory
/// meets anyway: the number of sequences fits in `usize`.
pub proof fn lemma_empty_probe_total(data: Seq<Seq<Seq<char>>>, subs: Seq<usize>)
    requires
        subs.len() == 0,
        data.len() <= usize::MAX,
    ensures
        2 * trace_num(data, expand(subs)) == data.len() * (data.len() as int - 1),
        trace_num(data, expand(subs)) == data.len() * (data.len() as int - 1) / 2,
        total_fits(data, expand(subs)),
{
    let idx = expand(subs);
    let n = data.len() as int;
    assert(idx.len() == 0);
    assert(n <= 0xffff_ffff_ffff_ffff);
    lemma_empty_total_prefix(data, idx, n);
    assert(2 * trace_num(data, idx) == n * (n - 1));
    assert forall|i: int| 0 <= i < n implies row_fits(data, idx, i) by {
        assert forall|u: int| i + 1 <= u <= n implies fits_i128(row_prefix(data, idx, i, u)) by {
            lemma_empty_row_prefix(data, idx, i, u);
        }
    }
    assert forall|u: int| 0 <= u <= n implies fits_i128(total_prefix(data, idx, u)) by {
        lemma_empty_total_prefix(data, idx, u);
        assert(0 <= u * (2 * n - u - 1) && u * (2 * n - u - 1) <= n * (n - 1)) by (nonlinear_arith)
            requires
                0 <= u <= n,
        ;
        assert(n * (n - 1) <= 0xffff_ffff_ffff_ffff * (0xffff_ffff_ffff_ffff - 1))
            by (nonlinear_arith)
            requires
                0 <= n <= 0xffff_ffff_ffff_ffff,
        ;
    }
}

/// The pair scores of the last sequence of `data` against the first `upto`
/// other sequences: what that sequence adds to the total.
pub open spec fn last_column_prefix(data: Seq<Seq<Seq<char>>>, idx: Seq<int>, upto: int) -> int
    decreases upto,
{
    if upto <= 0 {
        0
    } else {
        last_column_prefix(data, idx, upto - 1) + pair_num(
            data[upto - 1],
            data[data.len() - 1],
            idx,
        )
    }
}

proof fn lemma_row_prefix_drop_last(data: Seq<Seq<Seq<char>>>, idx: Seq<int>, i: int, upto: int)
    requires
        1 <= data.len(),
        0 <= i < data.len() - 1,
        upto <= data.len() - 1,
    ensures
        row_prefix(data, idx, i, upto) == row_prefix(data.drop_last(), idx, i, upto),
    decreases upto - i,
{
    if upto > i + 1 {
        lemma_row_prefix_drop_last(data, idx, i, upto - 1);
        assert(data.drop_last()[i] == data[i]);
        assert(data.drop_last()[upto - 1] == data[upto - 1]);
    }
}

proof fn lemma_total_prefix_drop_last(data: Seq<Seq<Seq<char>>>, idx: Seq<int>, u: int)
    requires
        2 <= data.len(),
        0 <= u <= data.len() - 1,
    ensures
        total_prefix(data, idx, u) == total_prefix(data.drop_last(), idx, u)
            + last_column_prefix(data, idx, u),
    decreases u,
{
    let n = data.len() as int;
    if u > 0 {
        lemma_total_prefix_drop_last(data, idx, u - 1);
        // the full row of sequence u - 1 is its row in the shortened dataset
        // plus its one pair with the last sequence
        lemma_row_prefix_drop_last(data, idx, u - 1, n - 1);
        assert(row_num(data, idx, u - 1) == row_prefix(data, idx, u - 1, n - 1) + pair_num(
            data[u - 1],
            data[n - 1],
            idx,
        ));
        assert(data.drop_last().len() == n - 1);
        assert(row_num(data.drop_last(), idx, u - 1) == row_prefix(
            data.drop_last(),
            idx,
            u - 1,
            n - 1,
        ));
    }
}

/// Determinism of the inclusion set: the pairs contributing to the total
/// are exactly the unordered pairs of distinct sequences, each counted
/// once. Concretely, the last sequence of the dataset contributes exactly
/// one pair score against each of the other sequences, and the rest of the
/// total is the total of the dataset without it.
pub proof fn lemma_each_pair_counted_once(data: Seq<Seq<Seq<char>>>, idx: Seq<int>)
    requires
        1 <= data.len(),
    ensures
        trace_num(data, idx) == trace_num(data.drop_last(), idx) + last_column_prefix(
            data,
            idx,
            data.len() - 1,
        ),
{
    let n = data.len() as int;
    if n == 1 {
        assert(trace_num(data, idx) == total_prefix(data, idx, 0) + row_num(data, idx, 0));
        assert(row_prefix(data, idx, 0, 1) == 0);
    } else {
        lemma_total_prefix_drop_last(data, idx, n - 1);
        assert(trace_num(data, idx) == total_prefix(data, idx, n - 1) + row_num(data, idx, n - 1));
        assert(row_prefix(data, idx, n - 1, n) == 0);
        assert(trace_num(data.drop_last(), idx) == total_prefix(data.drop_last(), idx, n - 1));
    }
}

/// A dataset of fewer than two sequences makes no pair: the trace total is
/// zero, and the checked computation trivially stays in range.
pub proof fn lemma_undersized_dataset_trace_zero(data: Seq<Seq<Seq<char>>>, idx: Seq<int>)
    requires
        data.len() < 2,
    ensures
        trace_num(data, idx) == 0,
        total_fits(data, idx),
{
    let n = data.len() as int;
    if n == 1 {
        assert(row_prefix(data, idx, 0, 1) == 0);
        assert(total_prefix(data, idx, 1) == total_prefix(data, idx, 0) + row_num(data, idx, 0));
    }
    assert forall|i: int| 0 <= i < n implies row_fits(data, idx, i) by {
        assert(row_prefix(data, idx, i, i + 1) == 0);
    }
}

} // verus!
