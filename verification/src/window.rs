//! The virtual window: the few consecutive rows of the backing sequence that
//! are rendered around the current index.

use vstd::prelude::*;

verus! {

/// The largest number of rows that the window holds.
pub const WINDOW_LEN: usize = 15;

/// How many rows before the current index the window keeps.
pub const WINDOW_LEAD: usize = 7;

/// The index in the backing sequence at which the window of `current_index`
/// begins: `WINDOW_LEAD` rows before it, and never before the first row.
pub open spec fn window_start_of(current_index: nat) -> nat {
    if current_index > WINDOW_LEAD {
        (current_index - WINDOW_LEAD) as nat
    } else {
        0
    }
}

/// The window of `current_index` over `backing`: the rows from the start of
/// the window on, `WINDOW_LEN` of them where that many are left, else all
/// that are left. Where the backing sequence ends at or before the start of
/// the window, the window is empty.
pub open spec fn window_of(current_index: nat, backing: Seq<usize>) -> Seq<usize> {
    let start = window_start_of(current_index) as int;
    if start >= backing.len() {
        Seq::empty()
    } else if backing.len() - start <= WINDOW_LEN {
        backing.subrange(start, backing.len() as int)
    } else {
        backing.subrange(start, start + WINDOW_LEN)
    }
}

/// The index at which the window of `current_index` begins.
pub fn window_start(current_index: usize) -> (start: usize)
    ensures
        start == window_start_of(current_index as nat),
{
    if current_index > WINDOW_LEAD {
        current_index - WINDOW_LEAD
    } else {
        0
    }
}

/// The rows to render when the row at `current_index` was the last one seen
/// to intersect. Nothing is padded, and a current index beyond the backing
/// sequence gives a window without rows.
pub fn compute_window(current_index: usize, backing: &[usize]) -> (window: Vec<usize>)
    ensures
        window@ == window_of(current_index as nat, backing@),
{
    let start: usize = window_start(current_index);
    let mut window: Vec<usize> = Vec::new();
    if start >= backing.len() {
        return window;
    }
    let end: usize = if backing.len() - start <= WINDOW_LEN {
        backing.len()
    } else {
        start + WINDOW_LEN
    };
    let mut i: usize = start;
    while i < end
        invariant
            start <= i <= end <= backing.len(),
            window@ == backing@.subrange(start as int, i as int),
        decreases end - i,
    {
        window.push(backing[i]);
        i += 1;
    }
    window
}

/// Where the backing sequence reaches the start of the window, the window
/// has `WINDOW_LEN` rows or, if fewer are left from its start on, that many.
pub proof fn lemma_window_len(current_index: nat, backing: Seq<usize>)
    requires
        window_start_of(current_index) <= backing.len(),
    ensures
        window_of(current_index, backing).len() == if backing.len() - window_start_of(current_index)
            < WINDOW_LEN {
            backing.len() - window_start_of(current_index)
        } else {
            WINDOW_LEN as int
        },
{
}

/// The rows of the window are those of the backing sequence, in its order
/// and without a gap, from the start of the window on.
pub proof fn lemma_window_rows(current_index: nat, backing: Seq<usize>, k: int)
    requires
        0 <= k < window_of(current_index, backing).len(),
    ensures
        window_start_of(current_index) + k < backing.len(),
        window_of(current_index, backing)[k] == backing[window_start_of(current_index) + k],
{
}

/// A window never holds more than `WINDOW_LEN` rows, and holds none where
/// the backing sequence ends before the window starts.
pub proof fn lemma_window_bounds(current_index: nat, backing: Seq<usize>)
    ensures
        window_of(current_index, backing).len() <= WINDOW_LEN,
        window_start_of(current_index) >= backing.len() ==> window_of(current_index, backing).len()
            == 0,
{
}

} // verus!
