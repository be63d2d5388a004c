//! The trace reduction engine: pair products, row sums and the total.

use vstd::prelude::*;
use crate::factor::{factor_doubled, rho_elt_process};
use rayon::iter::{IntoParallelIterator, ParallelIterator};

verus! {

/// The exact value of the trace total: `num / 2^halvings`.
///
/// Each probe position contributes one factor, carried doubled, so a
/// product over `m` positions is the true pair score times `2^m`;
/// `halvings` is that `m`, the number of probe positions.
#[derive(Clone, Copy, Debug, PartialEq, Eq, Structural)]
pub struct Trace {
    /// The trace total times `2^halvings`.
    pub num: i128,
    /// The power of two that scales `num` back to the trace total.
    pub halvings: usize,
}

/// Why a computation was aborted.
#[derive(Clone, Copy, Debug, PartialEq, Eq, Structural)]
pub enum TraceError {
    /// Probe position `probe` addresses the physical positions `2*probe`
    /// and `2*probe + 1`, and sequence `sequence` is too short to hold them.
    IndexOutOfRange { sequence: usize, probe: usize },
    /// An intermediate product or sum left the range of `i128`.
    Overflow,
}

/// Physical probe indices as mathematical integers.
pub open spec fn phys(idx: Seq<usize>) -> Seq<int> {
    idx.map_values(|p: usize| p as int)
}

/// Logical probe positions expanded to physical indices: `k` becomes `2*k`.
pub open spec fn expand(subs: Seq<usize>) -> Seq<int> {
    subs.map_values(|k: usize| 2 * (k as int))
}

/// Every physical probe index `p` of `idx`, and its successor `p + 1`,
/// is a valid position of a sequence of `len` labels.
pub open spec fn labels_cover(len: int, idx: Seq<int>) -> bool {
    forall|t: int| 0 <= t < idx.len() ==> idx[t] + 1 < len
}

/// `x` is a value of `i128`.
pub open spec fn fits_i128(x: int) -> bool {
    i128::MIN <= x <= i128::MAX
}

/// The product of the doubled factors of the first `k` probe indices of
/// `idx`, for the sequence pair with labels `a` and `b`.
pub open spec fn pair_prefix(a: Seq<Seq<char>>, b: Seq<Seq<char>>, idx: Seq<int>, k: int) -> int
    decreases k,
{
    if k <= 0 {
        1
    } else {
        pair_prefix(a, b, idx, k - 1) * factor_doubled(
            a[idx[k - 1]],
            b[idx[k - 1]],
            a[idx[k - 1] + 1],
            b[idx[k - 1] + 1],
        )
    }
}

/// The pair score of the sequences labeled `a` and `b`, times `2^idx.len()`:
/// the product of the doubled factors over all probe indices.
pub open spec fn pair_num(a: Seq<Seq<char>>, b: Seq<Seq<char>>, idx: Seq<int>) -> int {
    pair_prefix(a, b, idx, idx.len() as int)
}

/// Every intermediate product of the left-to-right fold over the probe
/// indices stays within `i128`.
pub open spec fn pair_fits(a: Seq<Seq<char>>, b: Seq<Seq<char>>, idx: Seq<int>) -> bool {
    forall|j: int| 1 <= j <= idx.len() ==> fits_i128(pair_prefix(a, b, idx, j))
}

/// The pair score numerator for the pair `(a, b)`, computed with checked
/// arithmetic: the exact product where every intermediate value fits in
/// `i128`, and nothing otherwise.
pub open spec fn pair_checked(a: Seq<Seq<char>>, b: Seq<Seq<char>>, idx: Seq<int>) -> Option<
    i128,
> {
    if pair_fits(a, b, idx) {
        Some(pair_num(a, b, idx) as i128)
    } else {
        None
    }
}

/// The product of the doubled factors over the probe indices, computed with
/// checked multiplication; `None` exactly when some intermediate product of
/// the fold leaves `i128`.
///
/// `substring_index` holds physical indices: each entry `p` compares the
/// labels at positions `p` and `p + 1` of the two sequences. An empty index
/// set yields the empty product `1`.
pub fn get_trace(rho_a: &Vec<String>, rho_b: &Vec<String>, substring_index: &Vec<usize>) -> (r:
    Option<i128>)
    requires
        labels_cover(rho_a@.len() as int, phys(substring_index@)),
        labels_cover(rho_b@.len() as int, phys(substring_index@)),
    ensures
        r == pair_checked(rho_a.deep_view(), rho_b.deep_view(), phys(substring_index@)),
{
    let ghost a = rho_a.deep_view();
    let ghost b = rho_b.deep_view();
    let ghost idx = phys(substring_index@);
    let mut acc: i128 = 1;
    let mut t: usize = 0;
    while t < substring_index.len()
        invariant
            0 <= t <= substring_index.len(),
            a == rho_a.deep_view(),
            b == rho_b.deep_view(),
            idx == phys(substring_index@),
            labels_cover(rho_a@.len() as int, idx),
            labels_cover(rho_b@.len() as int, idx),
            acc == pair_prefix(a, b, idx, t as int),
            forall|j: int| 1 <= j <= t ==> fits_i128(pair_prefix(a, b, idx, j)),
        decreases substring_index.len() - t,
    {
        let i = substring_index[t];
        assert(idx[t as int] == i as int);
        let la = rho_a.len();
        let lb = rho_b.len();
        assert(i as int + 1 < la as int);
        assert(i as int + 1 < lb as int);
        let f = rho_elt_process(&rho_a[i], &rho_b[i], &rho_a[i + 1], &rho_b[i + 1]);
        assert(a[i as int] == rho_a@[i as int]@);
        assert(a[i as int + 1] == rho_a@[i as int + 1]@);
        assert(b[i as int] == rho_b@[i as int]@);
        assert(b[i as int + 1] == rho_b@[i as int + 1]@);
        match acc.checked_mul(f) {
            Some(p) => {
                acc = p;
            },
            None => {
                assert(!fits_i128(pair_prefix(a, b, idx, t + 1)));
                assert(!pair_fits(a, b, idx));
                return None;
            },
        }
        t = t + 1;
    }
    assert(pair_fits(a, b, idx));
    Some(acc)
}

/// Every sequence of the dataset covers every physical probe index of `idx`
/// and its successor.
pub open spec fn dataset_covers_phys(data: Seq<Seq<Seq<char>>>, idx: Seq<int>) -> bool {
    forall|s: int| 0 <= s < data.len() ==> labels_cover(data[s].len() as int, idx)
}

/// The sum of the pair score numerators of the pairs `(i, j)` with
/// `i < j < upto`: the part of row `i` that the fold has reached.
pub open spec fn row_prefix(data: Seq<Seq<Seq<char>>>, idx: Seq<int>, i: int, upto: int) -> int
    decreases upto - i,
{
    if upto <= i + 1 {
        0
    } else {
        row_prefix(data, idx, i, upto - 1) + pair_num(data[i], data[upto - 1], idx)
    }
}

/// The full row sum for sequence `i`: the pair score numerators of all
/// pairs `(i, j)` with `i < j < data.len()`.
pub open spec fn row_num(data: Seq<Seq<Seq<char>>>, idx: Seq<int>, i: int) -> int {
    row_prefix(data, idx, i, data.len() as int)
}

/// Every intermediate value of the checked computation of row `i` stays
/// within `i128`: each pair product entirely, and each partial row sum.
pub open spec fn row_fits(data: Seq<Seq<Seq<char>>>, idx: Seq<int>, i: int) -> bool {
    &&& forall|j: int| i < j < data.len() ==> pair_fits(data[i], data[j], idx)
    &&& forall|u: int| i + 1 <= u <= data.len() ==> fits_i128(row_prefix(data, idx, i, u))
}

/// The row sum for sequence `i` computed with checked arithmetic: the exact
/// sum where every intermediate value fits in `i128`, and nothing otherwise.
pub open spec fn row_checked(data: Seq<Seq<Seq<char>>>, idx: Seq<int>, i: int) -> Option<i128> {
    if row_fits(data, idx, i) {
        Some(row_num(data, idx, i) as i128)
    } else {
        None
    }
}

/// The row sum for sequence `i`: the sum over `j` in `i+1..data.len()` of
/// the pair score numerator of `(i, j)`, with checked arithmetic; `None`
/// exactly when some intermediate product or partial sum leaves `i128`.
pub fn row_trace(data: &Vec<Vec<String>>, substring_index: &Vec<usize>, i: usize) -> (r: Option<
    i128,
>)
    requires
        i < data@.len(),
        dataset_covers_phys(data.deep_view(), phys(substring_index@)),
    ensures
        r == row_checked(data.deep_view(), phys(substring_index@), i as int),
{
    let ghost dv = data.deep_view();
    let ghost idx = phys(substring_index@);
    let n = data.len();
    let mut acc: i128 = 0;
    let mut j: usize = i + 1;
    assert(acc == row_prefix(dv, idx, i as int, j as int));
    while j < n
        invariant
            i < j <= n,
            n == data@.len(),
            dv == data.deep_view(),
            idx == phys(substring_index@),
            dataset_covers_phys(dv, idx),
            acc == row_prefix(dv, idx, i as int, j as int),
            forall|j2: int| i < j2 < j ==> pair_fits(dv[i as int], dv[j2], idx),
            forall|u: int| i + 1 <= u <= j ==> fits_i128(row_prefix(dv, idx, i as int, u)),
        decreases n - j,
    {
        assert(labels_cover(dv[i as int].len() as int, idx));
        assert(labels_cover(dv[j as int].len() as int, idx));
        assert(dv[i as int] == data@[i as int].deep_view());
        assert(dv[j as int] == data@[j as int].deep_view());
        let pair = get_trace(&data[i], &data[j], substring_index);
        match pair {
            Some(v) => {
                match acc.checked_add(v) {
                    Some(w) => {
                        acc = w;
                    },
                    None => {
                        assert(!fits_i128(row_prefix(dv, idx, i as int, j + 1)));
                        assert(!row_fits(dv, idx, i as int));
                        return None;
                    },
                }
            },
            None => {
                assert(!pair_fits(dv[i as int], dv[j as int], idx));
                assert(!row_fits(dv, idx, i as int));
                return None;
            },
        }
        j = j + 1;
    }
    assert(row_fits(dv, idx, i as int));
    Some(acc)
}

/// The row sums of all sequences, computed in parallel.
///
/// Relies on rayon's `into_par_iter`, `ParallelIterator::map` and `collect`
/// into `Vec`: the collected vector holds, in index order, exactly the
/// results of applying the mapped function to each element of the range,
/// whatever the parallel schedule.
#[verifier::external_body]
fn par_row_traces(data: &Vec<Vec<String>>, substring_index: &Vec<usize>) -> (r: Vec<
    Option<i128>,
>)
    requires
        dataset_covers_phys(data.deep_view(), phys(substring_index@)),
    ensures
        r@.len() == data@.len(),
        forall|i: int|
            0 <= i < data@.len() ==> r@[i] == row_checked(
                data.deep_view(),
                phys(substring_index@),
                i,
            ),
{
    (0..data.len()).into_par_iter().map(|i| row_trace(data, substring_index, i)).collect()
}

/// The sum of the row sums of the first `upto` sequences: the part of the
/// trace total numerator that the final fold has reached.
pub open spec fn total_prefix(data: Seq<Seq<Seq<char>>>, idx: Seq<int>, upto: int) -> int
    decreases upto,
{
    if upto <= 0 {
        0
    } else {
        total_prefix(data, idx, upto - 1) + row_num(data, idx, upto - 1)
    }
}

/// The trace total numerator: the sum over all pairs `(i, j)` with
/// `i < j < data.len()` of the pair score numerator of `(i, j)`. The trace
/// total itself is this value divided by `2^idx.len()`.
pub open spec fn trace_num(data: Seq<Seq<Seq<char>>>, idx: Seq<int>) -> int {
    total_prefix(data, idx, data.len() as int)
}

/// Every intermediate value of the whole checked computation stays within
/// `i128`: every row entirely, and every partial sum of row sums.
pub open spec fn total_fits(data: Seq<Seq<Seq<char>>>, idx: Seq<int>) -> bool {
    &&& forall|i: int| 0 <= i < data.len() ==> row_fits(data, idx, i)
    &&& forall|u: int| 0 <= u <= data.len() ==> fits_i128(total_prefix(data, idx, u))
}

/// Probe position `k` fits a sequence of `len` labels: the expanded
/// physical index `2k` and its successor `2k + 1` are valid positions.
pub open spec fn probe_fits(len: int, k: usize) -> bool {
    2 * (k as int) + 1 < len
}

/// The first `upto` probe positions of `subs` all fit a sequence of `len`
/// labels.
pub open spec fn covers_upto(len: int, subs: Seq<usize>, upto: int) -> bool {
    forall|t: int| 0 <= t < upto ==> probe_fits(len, subs[t])
}

/// Every sequence of the dataset covers every probe position of `subs`.
pub open spec fn dataset_covers(data: Seq<Seq<Seq<char>>>, subs: Seq<usize>) -> bool {
    forall|s: int| 0 <= s < data.len() ==> covers_upto(data[s].len() as int, subs, subs.len() as int)
}

/// `(s, t)` is the violation that a scan of sequences in order, and of the
/// probe positions of each sequence in order, meets first: probe `subs[t]`
/// does not fit sequence `s`, all earlier probes fit sequence `s`, and all
/// probes fit all earlier sequences.
pub open spec fn first_violation(
    data: Seq<Seq<Seq<char>>>,
    subs: Seq<usize>,
    s: int,
    t: int,
) -> bool {
    &&& 0 <= s < data.len()
    &&& 0 <= t < subs.len()
    &&& !probe_fits(data[s].len() as int, subs[t])
    &&& covers_upto(data[s].len() as int, subs, t)
    &&& forall|s2: int| 0 <= s2 < s ==> covers_upto(data[s2].len() as int, subs, subs.len() as int)
}

/// The trace total over all unordered pairs of sequences of `data`, for the
/// probe positions `subs`, each expanded to the physical index pair
/// `(2k, 2k + 1)`.
///
/// Returns the exact total as a numerator over `2^subs.len()`:
/// - fewer than two sequences make no pair, and the total is zero;
/// - a probe position that some sequence is too short for is reported as
///   `IndexOutOfRange`, naming the first such sequence and probe met by a
///   scan in order (no partial total is returned);
/// - otherwise the exact numerator is returned whenever every intermediate
///   value of the checked fold fits in `i128`, and `Overflow` is reported
///   where one does not.
pub fn perform_trace_calculation(data: Vec<Vec<String>>, subs: Vec<usize>) -> (r: Result<
    Trace,
    TraceError,
>)
    ensures
        data@.len() < 2 ==> r == Ok::<Trace, TraceError>(
            Trace { num: 0, halvings: subs@.len() as usize },
        ),
        data@.len() >= 2 && dataset_covers(data.deep_view(), subs@) ==> r == (
        if total_fits(data.deep_view(), expand(subs@)) {
            Ok::<Trace, TraceError>(
                Trace {
                    num: trace_num(data.deep_view(), expand(subs@)) as i128,
                    halvings: subs@.len() as usize,
                },
            )
        } else {
            Err::<Trace, TraceError>(TraceError::Overflow)
        }),
        data@.len() >= 2 && !dataset_covers(data.deep_view(), subs@) ==> (match r {
            Err(TraceError::IndexOutOfRange { sequence, probe }) => exists|t: int|
                first_violation(data.deep_view(), subs@, sequence as int, t) && probe == subs@[t],
            _ => false,
        }),
{
    let ghost dv = data.deep_view();
    let n = data.len();
    if n < 2 {
        return Ok(Trace { num: 0, halvings: subs.len() });
    }
    let m = subs.len();
    let mut s: usize = 0;
    while s < n
        invariant
            0 <= s <= n,
            2 <= n,
            n == data@.len(),
            m == subs@.len(),
            dv == data.deep_view(),
            forall|s2: int| 0 <= s2 < s ==> covers_upto(dv[s2].len() as int, subs@, m as int),
        decreases n - s,
    {
        let row_len = data[s].len();
        assert(row_len == dv[s as int].len());
        let mut t: usize = 0;
        while t < m
            invariant
                0 <= t <= m,
                s < n,
                2 <= n,
                n == data@.len(),
                m == subs@.len(),
                dv == data.deep_view(),
                row_len == dv[s as int].len(),
                covers_upto(dv[s as int].len() as int, subs@, t as int),
                forall|s2: int| 0 <= s2 < s ==> covers_upto(dv[s2].len() as int, subs@, m as int),
            decreases m - t,
        {
            let k = subs[t];
            if k > (usize::MAX - 1) / 2 || 2 * k + 1 >= row_len {
                assert(!probe_fits(dv[s as int].len() as int, k));
                assert(first_violation(dv, subs@, s as int, t as int));
                assert(covers_upto(dv[s as int].len() as int, subs@, m as int) ==> probe_fits(
                    dv[s as int].len() as int,
                    subs@[t as int],
                ));
                assert(!dataset_covers(dv, subs@));
                assert(exists|t2: int|
                    first_violation(dv, subs@, s as int, t2) && k == subs@[t2]);
                return Err(TraceError::IndexOutOfRange { sequence: s, probe: k });
            }
            assert(probe_fits(dv[s as int].len() as int, k));
            t = t + 1;
        }
        s = s + 1;
    }
    assert(dataset_covers(dv, subs@));
    let len0 = data[0].len();
    assert(len0 == dv[0].len());
    let mut indices: Vec<usize> = Vec::new();
    let mut t: usize = 0;
    while t < m
        invariant
            0 <= t <= m,
            m == subs@.len(),
            n == data@.len(),
            2 <= n,
            dv == data.deep_view(),
            dataset_covers(dv, subs@),
            len0 == dv[0].len(),
            indices@.len() == t,
            forall|q: int| 0 <= q < t ==> indices@[q] as int == 2 * (subs@[q] as int),
        decreases m - t,
    {
        let k = subs[t];
        assert(probe_fits(dv[0].len() as int, k));
        assert(2 * (k as int) + 1 < len0 as int);
        indices.push(2 * k);
        t = t + 1;
    }
    let ghost idx = phys(indices@);
    proof {
        assert(idx =~= expand(subs@));
        assert forall|s2: int| 0 <= s2 < dv.len() implies labels_cover(
            dv[s2].len() as int,
            idx,
        ) by {
            assert(covers_upto(dv[s2].len() as int, subs@, m as int));
            assert forall|q: int| 0 <= q < idx.len() implies idx[q] + 1 < dv[s2].len() as int by {
                assert(probe_fits(dv[s2].len() as int, subs@[q]));
            }
        }
    }
    let rows = par_row_traces(&data, &indices);
    let mut total: i128 = 0;
    let mut i: usize = 0;
    while i < n
        invariant
            0 <= i <= n,
            2 <= n,
            n == data@.len(),
            m == subs@.len(),
            dv == data.deep_view(),
            dataset_covers(dv, subs@),
            idx == expand(subs@),
            rows@.len() == n,
            forall|i2: int| 0 <= i2 < n ==> rows@[i2] == row_checked(dv, idx, i2),
            total == total_prefix(dv, idx, i as int),
            forall|i2: int| 0 <= i2 < i ==> row_fits(dv, idx, i2),
            forall|u: int| 0 <= u <= i ==> fits_i128(total_prefix(dv, idx, u)),
        decreases n - i,
    {
        match rows[i] {
            Some(v) => {
                assert(row_fits(dv, idx, i as int) && v == row_num(dv, idx, i as int));
                match total.checked_add(v) {
                    Some(w) => {
                        total = w;
                    },
                    None => {
                        assert(!fits_i128(total_prefix(dv, idx, i + 1)));
                        assert(!total_fits(dv, idx));
                        return Err(TraceError::Overflow);
                    },
                }
            },
            None => {
                assert(!row_fits(dv, idx, i as int));
                assert(!total_fits(dv, idx));
                return Err(TraceError::Overflow);
            },
        }
        i = i + 1;
    }
    assert(total_fits(dv, idx));
    assert(total == trace_num(dv, idx));
    Ok(Trace { num: total, halvings: m })
}

} // verus!
