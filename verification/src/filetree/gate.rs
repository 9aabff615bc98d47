//! Collapsing bursts of refresh requests into single queries.

use vstd::prelude::*;

verus! {

/// How long a refresh request waits for company, in milliseconds.
///
/// A burst of agent writes reaches the tree as one event per path. Short
/// enough that staging a file still feels instant.
pub const REFRESH_COALESCE_MILLIS: u64 = 120;

/// The refresh coalescer: at most one armed timer, at most one query in
/// flight, and at most one trailing re-run behind it.
///
/// Requests arriving during a query are not dropped (the status would go
/// stale) and not stacked either: they collapse into a single re-run.
#[derive(Debug, Clone, Copy, PartialEq, Eq, Structural)]
pub struct RefreshGate {
    pub armed: bool,
    pub inflight: bool,
    pub trailing: bool,
}

impl Default for RefreshGate {
    fn default() -> (out: Self)
        ensures
            out == Self::idle(),
            out.wf(),
    {
        RefreshGate { armed: false, inflight: false, trailing: false }
    }
}

impl RefreshGate {
    /// Nothing armed, nothing running, nothing owed.
    pub open spec fn idle() -> Self {
        RefreshGate { armed: false, inflight: false, trailing: false }
    }

    /// A re-run is owed only behind a query that is running.
    pub open spec fn wf(&self) -> bool {
        self.trailing ==> self.inflight
    }

    /// The coalescer after a request.
    pub open spec fn requested(self) -> Self {
        if self.inflight {
            RefreshGate { trailing: true, ..self }
        } else {
            RefreshGate { armed: true, ..self }
        }
    }

    /// The coalescer after the timer fired.
    pub open spec fn fired(self) -> Self {
        if self.inflight {
            RefreshGate { armed: false, trailing: true, ..self }
        } else {
            RefreshGate { armed: false, inflight: true, ..self }
        }
    }

    /// The coalescer after the query finished.
    pub open spec fn finished(self) -> Self {
        RefreshGate { inflight: false, trailing: false, ..self }
    }

    /// A refresh was asked for. `true` means arm the timer.
    pub fn request(&mut self) -> (arm: bool)
        requires
            old(self).wf(),
        ensures
            final(self).wf(),
            requests(*old(self), *final(self), arm),
    {
        if self.inflight {
            self.trailing = true;
            return false;
        }
        let arm = !self.armed;
        self.armed = true;
        arm
    }

    /// The timer fired. `true` means run the query now.
    pub fn fire(&mut self) -> (run: bool)
        requires
            old(self).wf(),
        ensures
            final(self).wf(),
            fires(*old(self), *final(self), run),
    {
        self.armed = false;
        if self.inflight {
            self.trailing = true;
            return false;
        }
        self.inflight = true;
        true
    }

    /// The query finished, applied or not. `true` means something asked for
    /// another one while it ran.
    pub fn finish(&mut self) -> (again: bool)
        requires
            old(self).wf(),
        ensures
            final(self).wf(),
            finishes(*old(self), *final(self), again),
    {
        self.inflight = false;
        let again = self.trailing;
        self.trailing = false;
        again
    }
}

/// A refresh that was asked for.
pub open spec fn requests(before: RefreshGate, after: RefreshGate, arm: bool) -> bool {
    &&& after == before.requested()
    &&& arm == (!before.inflight && !before.armed)
}

/// The timer firing.
pub open spec fn fires(before: RefreshGate, after: RefreshGate, run: bool) -> bool {
    &&& after == before.fired()
    &&& run == !before.inflight
}

/// A query that ended.
pub open spec fn finishes(before: RefreshGate, after: RefreshGate, again: bool) -> bool {
    &&& after == before.finished()
    &&& again == before.trailing
}

/// What happens to a gate.
pub enum GateEvent {
    Request,
    Fire,
    Finish,
}

/// The coalescer after a run of events.
pub open spec fn gate_after(gate: RefreshGate, events: Seq<GateEvent>) -> RefreshGate
    decreases events.len(),
{
    if events.len() == 0 {
        gate
    } else {
        let before = gate_after(gate, events.drop_last());
        match events.last() {
            GateEvent::Request => before.requested(),
            GateEvent::Fire => before.fired(),
            GateEvent::Finish => before.finished(),
        }
    }
}

/// Whatever happens to a gate, it stays well formed: a re-run is never owed
/// behind no query.
pub proof fn gate_stays_well_formed(gate: RefreshGate, events: Seq<GateEvent>)
    requires
        gate.wf(),
    ensures
        gate_after(gate, events).wf(),
    decreases events.len(),
{
    if events.len() > 0 {
        gate_stays_well_formed(gate, events.drop_last());
    }
}

/// A burst of requests leaves the coalescer as one request does, whether it is at
/// rest or a query is running.
pub proof fn a_burst_is_one_request(gate: RefreshGate, burst: Seq<GateEvent>)
    requires
        burst.len() > 0,
        forall|i: int| 0 <= i < burst.len() ==> (#[trigger] burst[i]) is Request,
    ensures
        gate_after(gate, burst) == gate.requested(),
    decreases burst.len(),
{
    assert(burst.last() is Request);
    if burst.len() > 1 {
        a_burst_is_one_request(gate, burst.drop_last());
    } else {
        assert(gate_after(gate, burst.drop_last()) == gate);
    }
}

/// A request during a query is neither dropped nor stacked: the query's end
/// owes exactly one re-run, and after it nothing more is owed.
pub proof fn one_rerun_is_owed(gate: RefreshGate, burst: Seq<GateEvent>)
    requires
        gate.wf(),
        gate.inflight,
        burst.len() > 0,
        forall|i: int| 0 <= i < burst.len() ==> (#[trigger] burst[i]) is Request,
    ensures
        gate_after(gate, burst).trailing,
        !gate_after(gate, burst).finished().requested().fired().trailing,
{
    a_burst_is_one_request(gate, burst);
}

/// How many queries run after a run of events: each one that starts counts
/// until it finishes.
pub open spec fn running_after(gate: RefreshGate, events: Seq<GateEvent>) -> int
    decreases events.len(),
{
    if events.len() == 0 {
        if gate.inflight {
            1
        } else {
            0
        }
    } else {
        let before = gate_after(gate, events.drop_last());
        let running = running_after(gate, events.drop_last());
        match events.last() {
            GateEvent::Request => running,
            GateEvent::Fire => if !before.inflight {
                running + 1
            } else {
                running
            },
            GateEvent::Finish => if before.inflight {
                running - 1
            } else {
                running
            },
        }
    }
}

/// Whatever happens to the coalescer, at most one query runs, and it knows so.
pub proof fn never_two_queries(gate: RefreshGate, events: Seq<GateEvent>)
    ensures
        running_after(gate, events) == if gate_after(gate, events).inflight {
            1int
        } else {
            0int
        },
    decreases events.len(),
{
    if events.len() > 0 {
        never_two_queries(gate, events.drop_last());
    }
}

/// No request is lost: after it a timer is armed or a re-run is owed. A timer is
/// armed only where none is and no query runs.
pub proof fn no_request_is_lost(before: RefreshGate, after: RefreshGate, arm: bool)
    requires
        before.wf(),
        requests(before, after, arm),
    ensures
        after.armed || after.trailing,
        before.inflight ==> after.trailing && after.inflight && !arm,
        arm <==> after.armed && !before.armed,
        !before.inflight && !before.armed ==> arm,
{
}

/// A timer that fires starts a query exactly where none runs; where one does, a
/// re-run is owed instead, and the end of that query pays it.
pub proof fn a_query_that_cannot_start_is_owed(
    before: RefreshGate,
    fired: RefreshGate,
    ended: RefreshGate,
    run: bool,
    again: bool,
)
    requires
        before.wf(),
        fires(before, fired, run),
        finishes(fired, ended, again),
    ensures
        fired.inflight && !fired.armed,
        run <==> !before.inflight,
        !run ==> again,
        run ==> !again,
        !ended.inflight && !ended.trailing,
{
}

} // verus!
