//! The page's state as one value: the backing sequence, the current index,
//! the pending flag of the loader and the debounced trigger, with one
//! function for each thing that can happen to it.
//!
//! The owner of a feed does the work that takes time. It hands each report
//! of an observer to `on_intersection` and sets a timer where that asks for
//! one; it hands each timer that runs out to `on_timer` and starts a load
//! where that says so; and it calls `on_loaded` when the load has come back.

use vstd::prelude::*;
use crate::debounce::{action_of, step, Action, Debouncer, Event, QUIET_MS};
use crate::loader::{
    extended, initial, initial_backing, is_contiguous, lemma_extended_contiguous, load_next,
    BATCH_LEN,
};
use crate::watcher::{is_entry, near_end, sees_entry, wants_more};
use crate::window::{compute_window, window_of};

verus! {

/// The state of the page.
#[derive(Debug)]
pub struct Feed {
    backing: Vec<usize>,
    current: usize,
    pending: bool,
    trigger: Debouncer,
}

/// What a feed holds, as plain values.
pub struct FeedView {
    /// The rows that have been loaded.
    pub backing: Seq<usize>,
    /// The index of the row that was last seen to intersect.
    pub current: usize,
    /// Whether a load is in flight.
    pub pending: bool,
    /// The time of the latest call of the debounced trigger that has not
    /// been carried out yet.
    pub armed_at: Option<u64>,
}

impl FeedView {
    /// The feed of a fresh page: the single row `0`, which is also the
    /// current one, no load in flight and no call waiting.
    pub open spec fn fresh() -> FeedView {
        FeedView { backing: initial_backing(), current: 0, pending: false, armed_at: None }
    }

    /// The backing sequence holds a row, its rows count up from zero
    /// without a gap, and no call of the debounced trigger waits while a
    /// load is in flight.
    pub open spec fn well_formed(self) -> bool {
        &&& self.backing.len() > 0
        &&& is_contiguous(self.backing)
        &&& self.pending ==> self.armed_at is None
    }

    /// The current index names a row of the backing sequence.
    pub open spec fn in_range(self) -> bool {
        self.current < self.backing.len()
    }

    /// Whether the report `entries` for the row at index `row` calls the
    /// debounced trigger: it brings the row into the intersecting state, and
    /// the row is near the end of the backing sequence.
    pub open spec fn calls_trigger(self, row: usize, entries: Seq<bool>) -> bool {
        is_entry(entries) && wants_more(self.backing.len(), row as nat)
    }

    /// What the debounced trigger answers to the report `entries`, made at
    /// `now`, for the row at index `row`: nothing where the report does not
    /// call it, and nothing where it is called while a load is in flight.
    pub open spec fn report_action(self, row: usize, entries: Seq<bool>, now: u64) -> Action {
        if self.calls_trigger(row, entries) {
            action_of(self.armed_at, Event::Trigger { at: now, pending: self.pending })
        } else {
            Action::Nothing
        }
    }

    /// The feed after the report `entries`, made at `now`, for the row at
    /// index `row`. A report that brings the row into the intersecting state
    /// makes it the current one, and calls the debounced trigger where the
    /// row is near the end; the call is dropped while a load is in flight.
    /// Any other report changes nothing.
    pub open spec fn reported(self, row: usize, entries: Seq<bool>, now: u64) -> FeedView {
        if is_entry(entries) {
            FeedView {
                current: row,
                armed_at: if self.calls_trigger(row, entries) {
                    step(self.armed_at, Event::Trigger { at: now, pending: self.pending })
                } else {
                    self.armed_at
                },
                ..self
            }
        } else {
            self
        }
    }

    /// What the debounced trigger answers to a timer that runs out at `now`.
    pub open spec fn timer_action(self, now: u64) -> Action {
        action_of(self.armed_at, Event::Expire { at: now, pending: self.pending })
    }

    /// The feed after a timer has run out at `now`: the debounced trigger
    /// has taken the expiry, and a load is in flight if it was before or is
    /// started now.
    pub open spec fn timed(self, now: u64) -> FeedView {
        FeedView {
            pending: self.pending || self.timer_action(now) == Action::Dispatch,
            armed_at: step(self.armed_at, Event::Expire { at: now, pending: self.pending }),
            ..self
        }
    }

    /// The feed after a load has come back: the next batch stands behind the
    /// rows that were there, and no load is in flight.
    pub open spec fn loaded(self) -> FeedView {
        FeedView { backing: extended(self.backing), pending: false, ..self }
    }
}

impl View for Feed {
    type V = FeedView;

    closed spec fn view(&self) -> FeedView {
        FeedView {
            backing: self.backing@,
            current: self.current,
            pending: self.pending,
            armed_at: self.trigger@,
        }
    }
}

impl Feed {
    #[verifier::type_invariant]
    spec fn holds(self) -> bool {
        self@.well_formed()
    }

    /// The feed of a fresh page.
    pub fn new() -> (feed: Feed)
        ensures
            feed@ == FeedView::fresh(),
            feed@.well_formed(),
    {
        Feed { backing: initial(), current: 0, pending: false, trigger: Debouncer::new() }
    }

    /// The rows that have been loaded.
    pub fn backing(&self) -> (backing: &Vec<usize>)
        ensures
            backing@ == self@.backing,
            self@.well_formed(),
    {
        proof {
            use_type_invariant(self);
        }
        &self.backing
    }

    /// How many rows have been loaded.
    pub fn len(&self) -> (len: usize)
        ensures
            len == self@.backing.len(),
            self@.well_formed(),
    {
        proof {
            use_type_invariant(self);
        }
        self.backing.len()
    }

    /// The index of the row that was last seen to intersect.
    pub fn current_index(&self) -> (current: usize)
        ensures
            current == self@.current,
    {
        self.current
    }

    /// Whether a load is in flight.
    pub fn is_pending(&self) -> (pending: bool)
        ensures
            pending == self@.pending,
    {
        self.pending
    }

    /// The rows to render.
    pub fn window(&self) -> (window: Vec<usize>)
        ensures
            window@ == window_of(self@.current as nat, self@.backing),
    {
        compute_window(self.current, &self.backing)
    }

    /// Takes the report `entries` that an observer made at `now` for the row
    /// at index `row`. Returns the milliseconds after which the owner has to
    /// call `on_timer`, where the report called the debounced trigger and no
    /// load was in flight; while one is, the call is dropped and no timer is
    /// asked for.
    pub fn on_intersection(&mut self, row: usize, entries: &[bool], now: u64) -> (wait: Option<u64>)
        ensures
            final(self)@ == old(self)@.reported(row, entries@, now),
            wait == if old(self)@.calls_trigger(row, entries@) && !old(self)@.pending {
                Some(QUIET_MS)
            } else {
                None
            },
            old(self)@.report_action(row, entries@, now) == (match wait {
                Some(delay) => Action::Wait(delay),
                None => Action::Nothing,
            }),
            old(self)@.pending ==> final(self)@.armed_at == old(self)@.armed_at && wait is None,
            final(self)@.well_formed(),
    {
        proof {
            use_type_invariant(&*self);
        }
        if !sees_entry(entries) {
            return None;
        }
        let mut wait: Option<u64> = None;
        if near_end(self.backing.len(), row) {
            let mut trigger = self.trigger;
            if let Action::Wait(delay) = trigger.trigger(now, self.pending) {
                wait = Some(delay);
            }
            self.trigger = trigger;
        }
        self.current = row;
        wait
    }

    /// Takes a timer that has run out at `now`. On `Action::Dispatch` a load
    /// is in flight from now on, and the owner has to run it; on
    /// `Action::Wait` the owner has to call `on_timer` again after that many
    /// milliseconds.
    pub fn on_timer(&mut self, now: u64) -> (action: Action)
        ensures
            final(self)@ == old(self)@.timed(now),
            action == old(self)@.timer_action(now),
            action == Action::Dispatch ==> !old(self)@.pending && final(self)@.pending,
            final(self)@.well_formed(),
    {
        proof {
            use_type_invariant(&*self);
        }
        let mut trigger = self.trigger;
        let action = trigger.expire(now, self.pending);
        self.trigger = trigger;
        if action == Action::Dispatch {
            self.pending = true;
        }
        action
    }

    /// Whether the next batch still fits the machine's integers.
    pub fn can_load(&self) -> (fits: bool)
        ensures
            fits == (self@.backing.len() + BATCH_LEN <= usize::MAX),
    {
        self.backing.len() <= usize::MAX - BATCH_LEN
    }

    /// Takes the end of a load: appends the next batch and clears the
    /// pending flag.
    pub fn on_loaded(&mut self)
        requires
            old(self)@.backing.len() + BATCH_LEN <= usize::MAX,
        ensures
            final(self)@ == old(self)@.loaded(),
            final(self)@.well_formed(),
    {
        proof {
            use_type_invariant(&*self);
            lemma_extended_contiguous(self.backing@);
        }
        // The rows are taken out for the load; a fresh backing sequence
        // keeps the feed well formed in the meantime.
        let mut backing = initial();
        std::mem::swap(&mut backing, &mut self.backing);
        load_next(&mut backing);
        self.backing = backing;
        self.pending = false;
    }
}

/// Whatever happens to a feed, the rows that were loaded stay in their
/// places: only a load that comes back changes the backing sequence, and it
/// appends one batch.
pub proof fn lemma_backing_only_grows(feed: FeedView, row: usize, entries: Seq<bool>, now: u64)
    ensures
        feed.reported(row, entries, now).backing == feed.backing,
        feed.timed(now).backing == feed.backing,
        feed.backing.is_prefix_of(feed.loaded().backing),
        feed.loaded().backing.len() == feed.backing.len() + BATCH_LEN,
{
}

/// Whatever happens to a well-formed feed leaves it well formed, as long as
/// the rows of a load that comes back fit the machine's integers.
pub proof fn lemma_well_formed_stays(feed: FeedView, row: usize, entries: Seq<bool>, now: u64)
    requires
        feed.well_formed(),
    ensures
        feed.reported(row, entries, now).well_formed(),
        feed.timed(now).well_formed(),
        feed.backing.len() + BATCH_LEN <= usize::MAX ==> feed.loaded().well_formed(),
{
    if feed.backing.len() + BATCH_LEN <= usize::MAX {
        lemma_extended_contiguous(feed.backing);
    }
}

/// As long as every report is for a row of the backing sequence, the current
/// index names a row of the backing sequence.
pub proof fn lemma_current_stays_in_range(
    feed: FeedView,
    row: usize,
    entries: Seq<bool>,
    now: u64,
)
    requires
        feed.in_range(),
        row < feed.backing.len(),
    ensures
        FeedView::fresh().in_range(),
        feed.reported(row, entries, now).in_range(),
        feed.timed(now).in_range(),
        feed.loaded().in_range(),
{
}

/// While a load is in flight no second one is started: a timer that runs
/// out then never asks for a load, and the load stays in flight.
pub proof fn lemma_one_load_in_flight(feed: FeedView, now: u64)
    requires
        feed.pending,
    ensures
        feed.timer_action(now) != Action::Dispatch,
        feed.timed(now).pending,
{
}

/// A call of the debounced trigger that is made while a load is in flight
/// causes no load. The report that makes it asks for no timer and leaves no
/// call waiting; and when the load has come back, a timer that runs out,
/// however late, starts nothing: the backing sequence has grown by the one
/// batch of the load that was in flight, and by no more.
pub proof fn lemma_call_while_pending_starts_no_load(
    feed: FeedView,
    row: usize,
    entries: Seq<bool>,
    now: u64,
    later: u64,
)
    requires
        feed.well_formed(),
        feed.pending,
    ensures
        feed.report_action(row, entries, now) == Action::Nothing,
        feed.reported(row, entries, now).armed_at is None,
        feed.reported(row, entries, now).timer_action(later) == Action::Nothing,
        feed.reported(row, entries, now).loaded().timer_action(later) == Action::Nothing,
        !feed.reported(row, entries, now).loaded().timed(later).pending,
        feed.reported(row, entries, now).loaded().timed(later).backing == extended(feed.backing),
{
}

} // verus!
