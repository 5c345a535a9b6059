use vstd::prelude::*;

use crate::gen::POWRange;

verus! {

/// Where the values of `range` end: `max`, or `min` for inverted bounds,
/// which hold nothing.
pub open spec fn upper(range: POWRange) -> u128 {
    if range.min <= range.max {
        range.max
    } else {
        range.min
    }
}

/// How many values `range` holds.
pub open spec fn span(range: POWRange) -> int {
    upper(range) - range.min
}

/// `parts` are `k` contiguous sub-ranges, in order, from `range.min` to the
/// end of `range`, each but the last holding `span(range) / k` values.
pub open spec fn is_partition(range: POWRange, parts: Seq<POWRange>, k: int) -> bool {
    &&& k > 0
    &&& parts.len() == k
    &&& parts[0].min == range.min
    &&& parts[k - 1].max == upper(range)
    &&& forall|i: int| 0 <= i < k - 1 ==> #[trigger] parts[i].max == parts[i + 1].min
    &&& forall|i: int| 0 <= i < k ==> #[trigger] parts[i].min <= parts[i].max
    &&& forall|i: int| 0 <= i < k - 1 ==> #[trigger] parts[i].max - parts[i].min == span(range) / k
}

proof fn lemma_steps_fit(j: int, k: int, len: int)
    requires
        0 <= j <= k,
        k > 0,
        len >= 0,
    ensures
        0 <= j * (len / k) <= len,
        len >= k ==> len / k >= 1,
        j < k ==> len - j * (len / k) >= len / k,
{
    assert(len == k * (len / k) + len % k) by (nonlinear_arith)
        requires k > 0, len >= 0;
    assert(0 <= len % k) by (nonlinear_arith)
        requires k > 0, len >= 0;
    assert(len / k >= 0) by (nonlinear_arith)
        requires k > 0, len >= 0;
    assert(j * (len / k) <= k * (len / k)) by (nonlinear_arith)
        requires 0 <= j <= k, len / k >= 0;
    assert(0 <= j * (len / k)) by (nonlinear_arith)
        requires 0 <= j, len / k >= 0;
    if j < k {
        assert((j + 1) * (len / k) <= k * (len / k)) by (nonlinear_arith)
            requires j + 1 <= k, len / k >= 0;
        assert((j + 1) * (len / k) == j * (len / k) + len / k) by (nonlinear_arith);
    }
    if len >= k {
        assert(len / k >= 1) by (nonlinear_arith)
            requires len >= k, k > 0, len == k * (len / k) + len % k, len % k < k;
    }
}

/// Splits `range` into `workers` contiguous sub-ranges that together hold
/// exactly its values; when there are at least as many values as workers,
/// none of them is empty.
pub fn partition(range: &POWRange, workers: u8) -> (r: Vec<POWRange>)
    requires
        workers > 0,
    ensures
        is_partition(*range, r@, workers as int),
        workers <= span(*range) ==> forall|i: int| 0 <= i < r@.len() ==> #[trigger] r@[i].min < r@[i].max,
{
    let hi: u128 = if range.min <= range.max { range.max } else { range.min };
    let len: u128 = hi - range.min;
    let size: u128 = len / (workers as u128);
    let ghost k = workers as int;
    let mut parts: Vec<POWRange> = Vec::new();
    let mut start: u128 = range.min;
    let mut i: u8 = 0;
    while i < workers
        invariant
            hi == upper(*range),
            len == span(*range),
            size as int == len as int / k,
            k == workers as int,
            0 <= i <= workers,
            parts@.len() == i,
            i < workers ==> start == range.min + i * size,
            i * size <= len,
            i > 0 ==> parts@[0].min == range.min,
            i > 0 ==> parts@[i - 1].max == start,
            i == workers ==> start == hi,
            forall|j: int| 0 <= j < i - 1 ==> #[trigger] parts@[j].max == parts@[j + 1].min,
            forall|j: int| 0 <= j < i ==> #[trigger] parts@[j].min <= parts@[j].max,
            forall|j: int| 0 <= j < i && j < k - 1 ==> #[trigger] parts@[j].max - parts@[j].min == size,
            workers <= len ==> forall|j: int| 0 <= j < i ==> #[trigger] parts@[j].min < parts@[j].max,
        decreases workers - i,
    {
        proof {
            lemma_steps_fit(i as int, k, len as int);
            lemma_steps_fit(i as int + 1, k, len as int);
        }
        let end: u128 = if i + 1 == workers { hi } else { start + size };
        parts.push(POWRange { min: start, max: end });
        proof {
            assert((i + 1) * size == i * size + size) by (nonlinear_arith);
        }
        start = end;
        i = i + 1;
    }
    parts
}

/// Each bound of a partition lies between its neighbours: a sub-range ends no
/// later than any later one starts.
proof fn lemma_bounds_ordered(range: POWRange, parts: Seq<POWRange>, k: int, i: int, j: int)
    requires
        is_partition(range, parts, k),
        0 <= i < j < k,
    ensures
        parts[i].max <= parts[j].min,
    decreases j - i,
{
    if i + 1 < j {
        lemma_bounds_ordered(range, parts, k, i, j - 1);
        assert(parts[j - 1].max == parts[j].min);
    } else {
        assert(parts[i].max == parts[i + 1].min);
    }
}

/// The sub-range among the first `n + 1` that holds `v`.
proof fn lemma_find_part(range: POWRange, parts: Seq<POWRange>, k: int, n: int, v: int) -> (i: int)
    requires
        is_partition(range, parts, k),
        0 <= n < k,
        range.min <= v < parts[n].max,
    ensures
        0 <= i <= n,
        parts[i].contains(v),
    decreases n,
{
    if v >= parts[n].min || n == 0 {
        n
    } else {
        assert(parts[n - 1].max == parts[n].min);
        lemma_find_part(range, parts, k, n - 1, v)
    }
}

/// A partition loses and duplicates nothing: a value lies in the range exactly
/// when it lies in one of the sub-ranges, and no two sub-ranges share a value.
pub proof fn lemma_partition_covers(range: POWRange, parts: Seq<POWRange>, k: int)
    requires
        is_partition(range, parts, k),
    ensures
        forall|v: int| range.contains(v) <==> exists|i: int| 0 <= i < k && #[trigger] parts[i].contains(v),
        forall|i: int, j: int, v: int|
            0 <= i < j < k ==> !(#[trigger] parts[i].contains(v) && #[trigger] parts[j].contains(v)),
{
    assert forall|v: int| range.contains(v) implies exists|i: int| 0 <= i < k && #[trigger] parts[i].contains(v) by {
        let i = lemma_find_part(range, parts, k, k - 1, v);
    }
    assert forall|v: int| (exists|i: int| 0 <= i < k && #[trigger] parts[i].contains(v)) implies range.contains(v) by {
        let i = choose|i: int| 0 <= i < k && #[trigger] parts[i].contains(v);
        if i > 0 {
            lemma_bounds_ordered(range, parts, k, 0, i);
        }
        if i < k - 1 {
            lemma_bounds_ordered(range, parts, k, i, k - 1);
        }
    }
    assert forall|i: int, j: int, v: int|
        0 <= i < j < k implies !(#[trigger] parts[i].contains(v) && #[trigger] parts[j].contains(v)) by {
        lemma_bounds_ordered(range, parts, k, i, j);
    }
}

} // verus!
