//! Fixed-size sliding windows of recent samples.

use std::collections::VecDeque;
use vstd::prelude::*;

verus! {

/// The window after `value` is appended to `window` of capacity `size`: when
/// the window already holds `size` samples (and holds any), its oldest sample
/// leaves first.
pub open spec fn slide<T>(window: Seq<T>, value: T, size: nat) -> Seq<T> {
    if window.len() == size && window.len() > 0 {
        window.drop_first().push(value)
    } else {
        window.push(value)
    }
}

/// The window after every value of `values` is appended in order.
pub open spec fn slide_all<T>(window: Seq<T>, values: Seq<T>, size: nat) -> Seq<T>
    decreases values.len(),
{
    if values.len() == 0 {
        window
    } else {
        slide(slide_all(window, values.drop_last(), size), values.last(), size)
    }
}

/// The sum of the samples of `s`.
pub open spec fn seq_sum(s: Seq<u64>) -> int
    decreases s.len(),
{
    if s.len() == 0 {
        0
    } else {
        seq_sum(s.drop_last()) + s.last()
    }
}

/// Appends `value` to `window`, first dropping the oldest sample when the
/// window already holds `window_size` samples.
pub fn update_sliding_window<T>(window: &mut VecDeque<T>, value: T, window_size: usize)
    ensures
        final(window)@ == slide(old(window)@, value, window_size as nat),
{
    if window.len() == window_size {
        window.pop_front();
    }
    window.push_back(value);
}

/// The window sum is the plain sum of every sample: the empty window sums
/// to 0, appending a sample adds exactly that sample, and the sum of two
/// windows laid end to end is the sum of their sums.
pub proof fn lemma_sum_of_samples(s: Seq<u64>, x: u64, t: Seq<u64>)
    ensures
        seq_sum(Seq::<u64>::empty()) == 0,
        seq_sum(s.push(x)) == seq_sum(s) + x,
        seq_sum(s + t) == seq_sum(s) + seq_sum(t),
        seq_sum(seq![x]) == x,
    decreases t.len(),
{
    assert(s.push(x).drop_last() =~= s);
    assert(seq![x].drop_last() =~= Seq::<u64>::empty());
    if t.len() == 0 {
        assert(s + t =~= s);
    } else {
        lemma_sum_of_samples(s, x, t.drop_last());
        assert((s + t).drop_last() =~= s + t.drop_last());
    }
}

/// A sum of `n` samples is at most `n` times the largest sample.
pub proof fn lemma_sum_bound(s: Seq<u64>)
    ensures
        0 <= seq_sum(s) <= s.len() * (u64::MAX as int),
    decreases s.len(),
{
    if s.len() > 0 {
        lemma_sum_bound(s.drop_last());
    }
}

/// The sum of the samples in `window`, exactly.
pub fn window_sum(window: &VecDeque<u64>) -> (total: u128)
    ensures
        total == seq_sum(window@),
{
    let n = window.len();
    let mut total: u128 = 0;
    let mut i: usize = 0;
    while i < n
        invariant
            n == window@.len(),
            i <= n,
            total == seq_sum(window@.subrange(0, i as int)),
        decreases n - i,
    {
        proof {
            let next = window@.subrange(0, i + 1);
            assert(next.drop_last() =~= window@.subrange(0, i as int));
            lemma_sum_bound(next);
            assert(next.len() * (u64::MAX as int) <= (u64::MAX as int) * (u64::MAX as int))
                by (nonlinear_arith)
                requires
                    next.len() <= u64::MAX,
            ;
        }
        total = total + window[i] as u128;
        i = i + 1;
    }
    assert(window@.subrange(0, n as int) =~= window@);
    total
}

/// A window that was within its capacity stays within it, and it grows by one
/// sample until it is full.
pub proof fn lemma_slide_len<T>(window: Seq<T>, value: T, size: nat)
    requires
        size > 0,
        window.len() <= size,
    ensures
        slide(window, value, size).len() == if window.len() < size {
            window.len() + 1
        } else {
            size
        },
        slide(window, value, size).last() == value,
{
}

/// Starting from an empty window of capacity `size > 0`, appending `values`
/// one by one leaves exactly the last `size` of them (all of them when there
/// are fewer), oldest first.
pub proof fn lemma_window_keeps_latest<T>(values: Seq<T>, size: nat)
    requires
        size > 0,
    ensures
        slide_all(Seq::<T>::empty(), values, size) == values.subrange(
            if values.len() > size { values.len() - size } else { 0 },
            values.len() as int,
        ),
    decreases values.len(),
{
    if values.len() > 0 {
        let prev = values.drop_last();
        lemma_window_keeps_latest(prev, size);
        let start = if prev.len() > size { prev.len() - size } else { 0 };
        let w = prev.subrange(start, prev.len() as int);
        let new_start = if values.len() > size { values.len() - size } else { 0 };
        if w.len() == size {
            assert(w.drop_first().push(values.last()) =~= values.subrange(
                new_start,
                values.len() as int,
            ));
        } else {
            assert(w.push(values.last()) =~= values.subrange(new_start, values.len() as int));
        }
    }
}

} // verus!
