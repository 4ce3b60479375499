//! The debounced trigger: calls that follow one another closely are held
//! back until none has come for a quiet period, and then count as one. A
//! call that is made while a load is pending is dropped at once, and the one
//! call that is left starts a load unless a load is pending by then.
//!
//! The debouncer keeps no timer of its own. It is told the time with each
//! event and answers with what its owner has to do: wait, start the load, or
//! nothing.

use vstd::prelude::*;

verus! {

/// The quiet period, in milliseconds: a call is carried out once this long
/// has passed without another call.
pub const QUIET_MS: u64 = 500;

/// What the owner of a debouncer has to do after an event.
#[derive(Clone, Copy, Debug, PartialEq, Eq, Structural)]
pub enum Action {
    /// Nothing.
    Nothing,
    /// Come back with an expiry after this many milliseconds.
    Wait(u64),
    /// Start the load.
    Dispatch,
}

/// What can happen to a debouncer, with the time in milliseconds at which
/// it happens.
#[derive(Clone, Copy, Debug, PartialEq, Eq, Structural)]
pub enum Event {
    /// The trigger is called. `pending` says whether a load is in flight at
    /// that time.
    Trigger { at: u64, pending: bool },
    /// A wait that the debouncer asked for is over. `pending` says whether a
    /// load is in flight at that time.
    Expire { at: u64, pending: bool },
}

/// The debounced trigger. Its view is the time of the latest call that has
/// not been carried out yet, if there is one.
#[derive(Clone, Copy, Debug)]
pub struct Debouncer {
    armed_at: Option<u64>,
}

/// The time at which `event` happens.
pub open spec fn time_of(event: Event) -> u64 {
    match event {
        Event::Trigger { at, .. } => at,
        Event::Expire { at, .. } => at,
    }
}

/// The milliseconds that have passed at `now` since a call at `armed_at`. A
/// clock that has gone backwards counts as no time passed.
pub open spec fn elapsed(armed_at: u64, now: u64) -> nat {
    if now >= armed_at {
        (now - armed_at) as nat
    } else {
        0
    }
}

/// Whether a call waits in `state` that has been quiet for the whole quiet
/// period at `now`.
pub open spec fn is_due(state: Option<u64>, now: u64) -> bool {
    state matches Some(armed_at) && elapsed(armed_at, now) >= QUIET_MS
}

/// Whether `event` is a call of the trigger that counts: one that is made
/// while no load is pending.
pub open spec fn arms(event: Event) -> bool {
    event matches Event::Trigger { pending, .. } && !pending
}

/// The state that `event` leaves behind. A call that is made while a load is
/// pending changes nothing; any other call takes the place of the one that
/// waited. An expiry carries a due call out and keeps one that is not due.
pub open spec fn step(state: Option<u64>, event: Event) -> Option<u64> {
    match event {
        Event::Trigger { at, pending } => if pending {
            state
        } else {
            Some(at)
        },
        Event::Expire { at, .. } => if is_due(state, at) {
            None
        } else {
            state
        },
    }
}

/// What the owner has to do after `event` in `state`. A call that is made
/// while a load is pending asks for nothing; any other call asks for a wait
/// of the whole quiet period. An expiry starts the load where a call is due
/// and no load is pending, asks for the rest of the quiet period where a
/// call waits that is not due, and else asks for nothing.
pub open spec fn action_of(state: Option<u64>, event: Event) -> Action {
    match event {
        Event::Trigger { pending, .. } => if pending {
            Action::Nothing
        } else {
            Action::Wait(QUIET_MS)
        },
        Event::Expire { at, pending } => match state {
            None => Action::Nothing,
            Some(armed_at) => if elapsed(armed_at, at) >= QUIET_MS {
                if pending {
                    Action::Nothing
                } else {
                    Action::Dispatch
                }
            } else {
                Action::Wait((QUIET_MS - elapsed(armed_at, at)) as u64)
            },
        },
    }
}

impl View for Debouncer {
    type V = Option<u64>;

    closed spec fn view(&self) -> Option<u64> {
        self.armed_at
    }
}

impl Debouncer {
    /// A debouncer in which no call waits.
    pub fn new() -> (debouncer: Debouncer)
        ensures
            debouncer@ is None,
    {
        Debouncer { armed_at: None }
    }

    /// Whether a call waits to be carried out.
    pub fn is_armed(&self) -> (armed: bool)
        ensures
            armed == (self@ is Some),
    {
        self.armed_at.is_some()
    }

    /// The trigger is called at `now`, and `pending` says whether a load is
    /// in flight. While one is, the call is dropped: the debouncer stays as
    /// it was and asks for nothing. Otherwise this call takes the place of
    /// the one that waited, the quiet period starts again, and the owner is
    /// asked to come back with an expiry when it is over.
    pub fn trigger(&mut self, now: u64, pending: bool) -> (action: Action)
        ensures
            final(self)@ == step(old(self)@, Event::Trigger { at: now, pending }),
            action == action_of(old(self)@, Event::Trigger { at: now, pending }),
            pending ==> final(self)@ == old(self)@ && action == Action::Nothing,
    {
        if pending {
            Action::Nothing
        } else {
            self.armed_at = Some(now);
            Action::Wait(QUIET_MS)
        }
    }

    /// A wait is over at `now`, and `pending` says whether a load is in
    /// flight. A call that is due is carried out, and starts the load unless
    /// one is pending; a call that is not due stays, and the owner is told
    /// how long is left.
    pub fn expire(&mut self, now: u64, pending: bool) -> (action: Action)
        ensures
            final(self)@ == step(old(self)@, Event::Expire { at: now, pending }),
            action == action_of(old(self)@, Event::Expire { at: now, pending }),
    {
        match self.armed_at {
            None => Action::Nothing,
            Some(armed_at) => {
                let passed: u64 = if now >= armed_at {
                    now - armed_at
                } else {
                    0
                };
                if passed >= QUIET_MS {
                    self.armed_at = None;
                    if pending {
                        Action::Nothing
                    } else {
                        Action::Dispatch
                    }
                } else {
                    Action::Wait(QUIET_MS - passed)
                }
            },
        }
    }

    /// Takes one event: the state moves as `step` says, and the result is
    /// what `action_of` says.
    pub fn handle(&mut self, event: Event) -> (action: Action)
        ensures
            final(self)@ == step(old(self)@, event),
            action == action_of(old(self)@, event),
    {
        match event {
            Event::Trigger { at, pending } => self.trigger(at, pending),
            Event::Expire { at, pending } => self.expire(at, pending),
        }
    }
}

/// How many loads a debouncer starts that takes the events of `trace` one
/// after the other, beginning in `state`.
pub open spec fn dispatch_count(state: Option<u64>, trace: Seq<Event>) -> nat
    decreases trace.len(),
{
    if trace.len() == 0 {
        0
    } else {
        let here: nat = if action_of(state, trace[0]) == Action::Dispatch {
            1
        } else {
            0
        };
        here + dispatch_count(step(state, trace[0]), trace.drop_first())
    }
}

/// No event of `trace` happens before one that stands earlier in it.
pub open spec fn in_time_order(trace: Seq<Event>) -> bool {
    forall|i: int, j: int| 0 <= i <= j < trace.len() ==> time_of(trace[i]) <= time_of(trace[j])
}

/// Every call of the trigger in `trace` happens in the interval that begins
/// at `from` and is shorter than the quiet period.
pub open spec fn triggers_within(trace: Seq<Event>, from: u64) -> bool {
    forall|i: int|
        0 <= i < trace.len() && #[trigger] trace[i] is Trigger ==> from <= time_of(trace[i]) < from
            + QUIET_MS
}

/// Every event of `trace` happens in the interval that begins at `from` and
/// is shorter than the quiet period.
pub open spec fn events_within(trace: Seq<Event>, from: u64) -> bool {
    forall|i: int|
        0 <= i < trace.len() ==> from <= time_of(#[trigger] trace[i]) < from + QUIET_MS
}

/// Whether `event` is an expiry that finds no load pending.
pub open spec fn is_free_expiry(event: Event) -> bool {
    event matches Event::Expire { pending, .. } && !pending
}

/// Every call of the trigger in `trace` is made while a load is pending.
pub open spec fn called_while_pending(trace: Seq<Event>) -> bool {
    forall|i: int| 0 <= i < trace.len() ==> !arms(#[trigger] trace[i])
}

/// Every expiry of `trace` finds a load pending.
pub open spec fn always_pending(trace: Seq<Event>) -> bool {
    forall|i: int| 0 <= i < trace.len() ==> !is_free_expiry(#[trigger] trace[i])
}

/// A call of the trigger that is made while a load is pending causes no
/// load: where every call in `trace` is made so, a debouncer that was idle
/// before starts none, whatever its expiries find.
pub proof fn lemma_calls_while_pending_dispatch_nothing(trace: Seq<Event>)
    requires
        called_while_pending(trace),
    ensures
        dispatch_count(None, trace) == 0,
    decreases trace.len(),
{
    if trace.len() > 0 {
        let rest = trace.drop_first();
        assert(!arms(trace[0]));
        assert(called_while_pending(rest)) by {
            assert forall|i: int| 0 <= i < rest.len() implies !arms(#[trigger] rest[i]) by {
                assert(rest[i] == trace[i + 1]);
            }
        }
        lemma_calls_while_pending_dispatch_nothing(rest);
    }
}

/// The burst law for any state in which the call that waits, if one does,
/// was made inside the interval.
proof fn lemma_burst_from(state: Option<u64>, trace: Seq<Event>, from: u64)
    requires
        in_time_order(trace),
        triggers_within(trace, from),
        state matches Some(armed_at) ==> from <= armed_at < from + QUIET_MS,
    ensures
        dispatch_count(state, trace) <= 1,
    decreases trace.len(),
{
    if trace.len() > 0 {
        let first = trace[0];
        let rest = trace.drop_first();
        assert(in_time_order(rest)) by {
            assert forall|i: int, j: int| 0 <= i <= j < rest.len() implies time_of(rest[i])
                <= time_of(rest[j]) by {
                assert(rest[i] == trace[i + 1]);
                assert(rest[j] == trace[j + 1]);
            }
        }
        assert(triggers_within(rest, from)) by {
            assert forall|i: int| 0 <= i < rest.len() && #[trigger] rest[i] is Trigger implies from
                <= time_of(rest[i]) < from + QUIET_MS by {
                assert(rest[i] == trace[i + 1]);
            }
        }
        if is_due(state, time_of(first)) && first is Expire {
            // The call that waited was made inside the interval, so the
            // interval is over; no call of the trigger can follow.
            assert forall|i: int| 0 <= i < rest.len() implies !arms(#[trigger] rest[i]) by {
                assert(rest[i] == trace[i + 1]);
                assert(time_of(trace[0]) <= time_of(trace[i + 1]));
            }
            lemma_calls_while_pending_dispatch_nothing(rest);
        } else {
            lemma_burst_from(step(state, first), rest, from);
        }
    }
}

/// However often the trigger is called inside an interval shorter than the
/// quiet period, a debouncer that was idle before, and takes its events in
/// the order of time, starts at most one load.
pub proof fn lemma_burst_dispatches_once(trace: Seq<Event>, from: u64)
    requires
        in_time_order(trace),
        triggers_within(trace, from),
    ensures
        dispatch_count(None, trace) <= 1,
{
    lemma_burst_from(None, trace, from);
}

/// Inside the interval no load is started by a debouncer that is idle, or
/// in which the call that waits was made inside the interval.
proof fn lemma_stretch_quiet(state: Option<u64>, trace: Seq<Event>, from: u64)
    requires
        events_within(trace, from),
        state matches Some(armed_at) ==> from <= armed_at < from + QUIET_MS,
    ensures
        dispatch_count(state, trace) == 0,
    decreases trace.len(),
{
    if trace.len() > 0 {
        let rest = trace.drop_first();
        assert(from <= time_of(trace[0]) < from + QUIET_MS);
        assert(events_within(rest, from)) by {
            assert forall|i: int| 0 <= i < rest.len() implies from <= time_of(#[trigger] rest[i])
                < from + QUIET_MS by {
                assert(rest[i] == trace[i + 1]);
            }
        }
        lemma_stretch_quiet(step(state, trace[0]), rest, from);
    }
}

/// In any interval shorter than the quiet period a debouncer starts at most
/// one load, whatever state it is in when the interval begins: two loads are
/// never started less than a quiet period apart.
pub proof fn lemma_stretch_dispatches_once(state: Option<u64>, trace: Seq<Event>, from: u64)
    requires
        events_within(trace, from),
    ensures
        dispatch_count(state, trace) <= 1,
    decreases trace.len(),
{
    if trace.len() > 0 {
        let first = trace[0];
        let rest = trace.drop_first();
        assert(from <= time_of(first) < from + QUIET_MS);
        assert(events_within(rest, from)) by {
            assert forall|i: int| 0 <= i < rest.len() implies from <= time_of(#[trigger] rest[i])
                < from + QUIET_MS by {
                assert(rest[i] == trace[i + 1]);
            }
        }
        if arms(first) || (first is Expire && is_due(state, time_of(first))) {
            lemma_stretch_quiet(step(state, first), rest, from);
        } else {
            lemma_stretch_dispatches_once(step(state, first), rest, from);
        }
    }
}

/// No second load is started while one is pending: where every expiry of
/// `trace` finds a load pending, none is started, however often and whenever
/// the trigger is called.
pub proof fn lemma_pending_blocks_dispatch(state: Option<u64>, trace: Seq<Event>)
    requires
        always_pending(trace),
    ensures
        dispatch_count(state, trace) == 0,
    decreases trace.len(),
{
    if trace.len() > 0 {
        let rest = trace.drop_first();
        assert(always_pending(rest)) by {
            assert forall|i: int| 0 <= i < rest.len() implies !is_free_expiry(#[trigger] rest[i]) by {
                assert(rest[i] == trace[i + 1]);
            }
        }
        assert(!is_free_expiry(trace[0]));
        lemma_pending_blocks_dispatch(step(state, trace[0]), rest);
    }
}

} // verus!
