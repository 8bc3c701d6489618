//! Index arithmetic over a series: seasonal classes of observations, a
//! seasonal pattern repeated along a series, and the windows of a series.
use vstd::prelude::*;

verus! {

/// Every `step`-th element of `x` from position `start` on.
pub open spec fn stride<T>(x: Seq<T>, start: int, step: int) -> Seq<T>
    decreases if start < x.len() { x.len() - start } else { 0 },
{
    if step <= 0 || start < 0 || start >= x.len() {
        Seq::empty()
    } else {
        seq![x[start]] + stride(x, start + step, step)
    }
}

/// The observations of `x` that fall in season `season` of `freq`: those at
/// the positions `season`, `season + freq`, `season + 2 * freq`, ...
pub fn season_values<T: Copy>(x: &[T], season: usize, freq: usize) -> (res: Vec<T>)
    requires
        freq > 0,
    ensures
        res@ == stride(x@, season as int, freq as int),
{
    let mut res: Vec<T> = Vec::new();
    let mut idx: usize = season;
    let ghost all = stride(x@, season as int, freq as int);
    assert(res@ + stride(x@, idx as int, freq as int) =~= all);
    while idx < x.len()
        invariant
            freq > 0,
            all == stride(x@, season as int, freq as int),
            res@ + stride(x@, idx as int, freq as int) == all,
        decreases x.len() - idx,
    {
        let ghost before = res@;
        res.push(x[idx]);
        assert(stride(x@, idx as int, freq as int) == seq![x@[idx as int]] + stride(
            x@,
            idx + freq,
            freq as int,
        ));
        assert(before.push(x@[idx as int]) + stride(x@, idx + freq, freq as int) =~= before + (
        seq![x@[idx as int]] + stride(x@, idx + freq, freq as int)));
        if x.len() - idx <= freq {
            assert(stride(x@, idx + freq, freq as int) =~= Seq::<T>::empty());
            assert(res@ =~= all);
            return res;
        }
        idx = idx + freq;
    }
    assert(stride(x@, idx as int, freq as int) =~= Seq::<T>::empty());
    assert(res@ =~= all);
    res
}

/// The observations of `x` split by season: entry `i` holds those at the
/// positions that leave the remainder `i` when divided by `freq`, in order.
pub fn seasonal_classes<T: Copy>(x: &[T], freq: usize) -> (res: Vec<Vec<T>>)
    ensures
        res.len() == freq,
        forall|i: int| 0 <= i < freq ==> #[trigger] res@[i]@ == stride(x@, i, freq as int),
{
    let mut res: Vec<Vec<T>> = Vec::new();
    let mut i: usize = 0;
    while i < freq
        invariant
            i <= freq,
            res.len() == i,
            forall|j: int| 0 <= j < i ==> #[trigger] res@[j]@ == stride(x@, j, freq as int),
        decreases freq - i,
    {
        res.push(season_values(x, i, freq));
        i = i + 1;
    }
    res
}

proof fn lemma_stride_at<T>(x: Seq<T>, start: int, step: int, k: int)
    requires
        step > 0,
        0 <= start,
        0 <= k < stride(x, start, step).len(),
    ensures
        start + k * step < x.len(),
        stride(x, start, step)[k] == x[start + k * step],
    decreases k,
{
    assert(start < x.len());
    if k == 0 {
        assert(k * step == 0) by (nonlinear_arith)
            requires
                k == 0,
        ;
    } else {
        assert(stride(x, start, step) == seq![x[start]] + stride(x, start + step, step));
        lemma_stride_at(x, start + step, step, k - 1);
        assert(start + step + (k - 1) * step == start + k * step) by (nonlinear_arith);
    }
}

proof fn lemma_stride_end<T>(x: Seq<T>, start: int, step: int)
    requires
        step > 0,
        0 <= start,
    ensures
        start + stride(x, start, step).len() * step >= x.len(),
    decreases if start < x.len() { x.len() - start } else { 0 },
{
    if start < x.len() {
        lemma_stride_end(x, start + step, step);
        let n = stride(x, start + step, step).len();
        assert(stride(x, start, step).len() == n + 1);
        assert(start + step + n * step == start + (n + 1) * step) by (nonlinear_arith);
    } else {
        assert(stride(x, start, step).len() == 0);
        assert(0 * step == 0) by (nonlinear_arith);
    }
}

/// A stride lists exactly the elements whose positions are `start` plus a
/// multiple of the step, in the order of their positions, and stops at the
/// first such position past the end.
pub proof fn lemma_stride_positions<T>(x: Seq<T>, start: int, step: int)
    requires
        step > 0,
        0 <= start,
    ensures
        forall|k: int|
            0 <= k < stride(x, start, step).len() ==> #[trigger] stride_position(start, step, k)
                < x.len(),
        forall|k: int|
            0 <= k < stride(x, start, step).len() ==> #[trigger] stride(x, start, step)[k]
                == x[stride_position(start, step, k)],
        stride_position(start, step, stride(x, start, step).len() as int) >= x.len(),
{
    assert forall|k: int| 0 <= k < stride(x, start, step).len() implies #[trigger] stride_position(
        start,
        step,
        k,
    ) < x.len() by {
        lemma_stride_at(x, start, step, k);
    }
    assert forall|k: int| 0 <= k < stride(x, start, step).len() implies #[trigger] stride(
        x,
        start,
        step,
    )[k] == x[stride_position(start, step, k)] by {
        lemma_stride_at(x, start, step, k);
    }
    lemma_stride_end(x, start, step);
}

/// The position of the `k`-th element of a stride.
pub open spec fn stride_position(start: int, step: int, k: int) -> int {
    start + k * step
}

/// `pattern` repeated along `n` positions: position `i` holds
/// `pattern[i % pattern.len()]`.
pub fn tile<T: Copy>(pattern: &[T], n: usize) -> (res: Vec<T>)
    requires
        pattern.len() > 0 || n == 0,
    ensures
        res.len() == n,
        forall|i: int| 0 <= i < n ==> #[trigger] res@[i] == pattern@[i % (pattern.len() as int)],
{
    let mut res: Vec<T> = Vec::new();
    let mut i: usize = 0;
    while i < n
        invariant
            pattern.len() > 0 || n == 0,
            i <= n,
            res.len() == i,
            forall|j: int| 0 <= j < i ==> #[trigger] res@[j] == pattern@[j % (pattern.len() as int)],
        decreases n - i,
    {
        res.push(pattern[i % pattern.len()]);
        i = i + 1;
    }
    res
}

/// The bounds `[start, end)` of the whole windows of `window` positions
/// that fit in a series of `n`, from its start.
pub fn window_bounds(n: usize, window: usize) -> (res: Vec<(usize, usize)>)
    requires
        window > 0,
    ensures
        res.len() == n / window,
        forall|j: int|
            0 <= j < res.len() ==> #[trigger] res@[j] == (
            (j * window) as usize,
            (j * window + window) as usize,
            ) && j * window + window <= n,
{
    let count = n / window;
    let mut res: Vec<(usize, usize)> = Vec::new();
    let mut j: usize = 0;
    let mut start: usize = 0;
    proof {
        assert(count * window <= n) by (nonlinear_arith)
            requires
                count == n / window,
                window > 0,
        ;
    }
    while j < count
        invariant
            window > 0,
            count == n / window,
            count * window <= n,
            j <= count,
            start == j * window,
            res.len() == j,
            forall|k: int|
                0 <= k < j ==> #[trigger] res@[k] == ((k * window) as usize, (k * window
                    + window) as usize) && k * window + window <= n,
        decreases count - j,
    {
        proof {
            assert((j + 1) * window <= count * window) by (nonlinear_arith)
                requires
                    j < count,
                    window > 0,
            ;
            assert((j + 1) * window == j * window + window) by (nonlinear_arith);
        }
        res.push((start, start + window));
        start = start + window;
        j = j + 1;
    }
    res
}

} // verus!
