//! The intersection watcher of one rendered row: what a report of the
//! observer means for the row, and whether the list should load more.
//!
//! A report is the batch of entries that the observer hands over at once,
//! each entry given here by whether it finds the row intersecting. The
//! observer is set up with `VISIBLE_PERCENT` as its threshold, so a report
//! comes when the visible part of the row crosses that share. Only the first
//! entry of a batch is looked at.

use vstd::prelude::*;

verus! {

/// The share of a row, in percent, that has to be visible in the scroll
/// container for the row to count as intersecting.
pub const VISIBLE_PERCENT: u8 = 83;

/// The list loads more when no more than this many rows are left from the
/// intersecting row to the end of the backing sequence.
pub const REFILL_MARGIN: usize = 10;

/// Where a rendered row stands with its observer.
#[derive(Clone, Copy, Debug, PartialEq, Eq, Structural)]
pub enum RowState {
    /// No report has come for the row yet.
    NotObserved,
    /// The latest report found the row not intersecting.
    NotIntersecting,
    /// The latest report found the row intersecting.
    Intersecting,
}

/// Whether the report `entries` brings the row into the intersecting state:
/// it has a first entry, and that entry finds the row intersecting.
pub open spec fn is_entry(entries: Seq<bool>) -> bool {
    entries.len() > 0 && entries[0]
}

/// The state of a row in `state` after the report `entries`. A report
/// without entries changes nothing; any other sets the state by its first
/// entry.
pub open spec fn observed(state: RowState, entries: Seq<bool>) -> RowState {
    if entries.len() == 0 {
        state
    } else if entries[0] {
        RowState::Intersecting
    } else {
        RowState::NotIntersecting
    }
}

/// Whether a list of `len` rows should load more when the row at index `row`
/// intersects: no more than `REFILL_MARGIN` rows are left from it to the
/// end. A row beyond the end counts as having none left.
pub open spec fn wants_more(len: nat, row: nat) -> bool {
    len - row <= REFILL_MARGIN
}

impl RowState {
    /// The state of the row after the report `entries`.
    pub fn observe(self, entries: &[bool]) -> (next: RowState)
        ensures
            next == observed(self, entries@),
    {
        if entries.len() == 0 {
            self
        } else if entries[0] {
            RowState::Intersecting
        } else {
            RowState::NotIntersecting
        }
    }
}

/// Whether the report `entries` brings the row into the intersecting state.
/// This is the one kind of report that is acted upon; a report that finds
/// the row leaving is not.
pub fn sees_entry(entries: &[bool]) -> (entered: bool)
    ensures
        entered == is_entry(entries@),
{
    entries.len() > 0 && entries[0]
}

/// Whether a list of `len` rows should load more when the row at index `row`
/// intersects.
pub fn near_end(len: usize, row: usize) -> (near: bool)
    ensures
        near == wants_more(len as nat, row as nat),
{
    if row >= len {
        true
    } else {
        len - row <= REFILL_MARGIN
    }
}

} // verus!
