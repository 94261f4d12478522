//! The streaming median filter over dollar-rate samples.
//!
//! The filter itself comes from the `median` crate: a ring buffer that keeps
//! the last `size` consumed values and returns the median of that window on
//! every `consume`. The window contents are named by [`filter_window`] and
//! the wrappers state how each call moves them.

use vstd::prelude::*;

use crate::types::DollarRate;

verus! {

#[verifier::external_type_specification]
#[verifier::external_body]
#[verifier::reject_recursive_types(T)]
pub struct ExFilter<T>(median::Filter<T>);

/// The sliding window a filter currently holds, oldest value first.
pub uninterp spec fn filter_window(f: median::Filter<DollarRate>) -> Seq<DollarRate>;

/// The window size the filter was created with.
pub uninterp spec fn filter_size(f: median::Filter<DollarRate>) -> nat;

/// The median the filter reports for a window: the value at the lower middle
/// position of the sorted window. For an odd number of values this is the
/// middle value; for an even number it is the smaller of the two middle
/// values, for both assets alike.
pub open spec fn median_of(window: Seq<DollarRate>) -> DollarRate
    recommends
        window.len() > 0,
{
    window.sort_by(|a: DollarRate, b: DollarRate| a <= b)[(window.len() - 1) as int / 2]
}

/// How one consumed value moves a window: appended, evicting the oldest
/// value once the window is full.
pub open spec fn window_after(window: Seq<DollarRate>, size: nat, value: DollarRate) -> Seq<
    DollarRate,
> {
    if window.len() < size {
        window.push(value)
    } else {
        window.drop_first().push(value)
    }
}

/// Relies on median::Filter::new: a filter with the given window size and an
/// empty window.
#[verifier::external_body]
pub fn filter_new(size: usize) -> (f: median::Filter<DollarRate>)
    ensures
        filter_size(f) == size,
        filter_window(f) == Seq::<DollarRate>::empty(),
{
    median::Filter::new(size)
}

/// Relies on median::Filter::consume: appends the value to the sliding
/// window, evicting the oldest value once the window is full, and returns
/// the lower median of the new window. A filter of size zero would panic,
/// so that case is excluded.
#[verifier::external_body]
pub fn filter_consume(f: &mut median::Filter<DollarRate>, value: DollarRate) -> (r: DollarRate)
    requires
        filter_size(*old(f)) >= 1,
        filter_window(*old(f)).len() <= filter_size(*old(f)),
    ensures
        filter_size(*final(f)) == filter_size(*old(f)),
        filter_window(*final(f)) == window_after(
            filter_window(*old(f)),
            filter_size(*old(f)),
            value,
        ),
        r == median_of(filter_window(*final(f))),
{
    f.consume(value)
}

/// The last `w` values of a sequence (all of them, if there are fewer).
pub open spec fn last_window(values: Seq<DollarRate>, w: nat) -> Seq<DollarRate> {
    if values.len() <= w {
        values
    } else {
        values.subrange(values.len() - w, values.len() as int)
    }
}

/// Feeding one more value moves the last-`w` window exactly as a filter of
/// size `w` moves its own window.
pub proof fn lemma_last_window_push(values: Seq<DollarRate>, w: nat, value: DollarRate)
    requires
        w >= 1,
    ensures
        last_window(values.push(value), w) == window_after(last_window(values, w), w, value),
{
    if values.len() < w {
        assert(last_window(values.push(value), w) =~= last_window(values, w).push(value));
    } else {
        assert(last_window(values.push(value), w) =~= last_window(values, w).drop_first().push(
            value,
        ));
    }
}

} // verus!
