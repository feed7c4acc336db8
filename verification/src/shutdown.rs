//! Draining connections at shutdown.
use vstd::prelude::*;

use crate::text;
use crate::text::parse_u64;

verus! {

/// How many seconds connections are given to end, where nothing else is set.
///
/// This is below the 30 seconds after which a container runtime usually kills
/// the process.
pub const DEFAULT_SHUTDOWN_DRAIN_TIMEOUT: u64 = 25;

/// How many seconds aborted connections are given to unwind.
pub const ABORT_UNWIND_GRACE: u64 = 1;

/// The drain timeout that a setting stands for, in seconds: the default where
/// it is missing or not a number.
pub open spec fn drain_timeout(raw: Option<Seq<char>>) -> u64 {
    match raw {
        Some(v) => match text::u64_value(v) {
            Some(secs) => secs,
            None => DEFAULT_SHUTDOWN_DRAIN_TIMEOUT,
        },
        None => DEFAULT_SHUTDOWN_DRAIN_TIMEOUT,
    }
}

/// Reads the drain timeout, in seconds.
pub fn parse_drain_timeout(raw: Option<String>) -> (r: u64)
    ensures
        r == drain_timeout(text::text_view(raw)),
{
    match raw {
        Some(v) => match parse_u64(v.as_str()) {
            Some(secs) => secs,
            None => DEFAULT_SHUTDOWN_DRAIN_TIMEOUT,
        },
        None => DEFAULT_SHUTDOWN_DRAIN_TIMEOUT,
    }
}

/// How the task of a connection ended.
#[derive(Clone, Copy, Debug, PartialEq, Eq, Structural)]
pub enum TaskEnd {
    Finished,
    Panicked,
    Cancelled,
    Failed,
}

/// What is logged of a task that ended while draining. A task that finished or
/// was aborted is not worth a line.
pub fn log_task_result(end: TaskEnd) -> (r: Option<&'static str>)
    ensures
        match end {
            TaskEnd::Panicked => r matches Some(m) && m@ == "connection task panicked"@,
            TaskEnd::Failed => r matches Some(m) && m@ == "connection task failed during drain"@,
            _ => r is None,
        },
{
    match end {
        TaskEnd::Panicked => Some("connection task panicked"),
        TaskEnd::Failed => Some("connection task failed during drain"),
        TaskEnd::Finished => None,
        TaskEnd::Cancelled => None,
    }
}

/// The progress of a shutdown.
#[derive(Clone, Copy, Debug, PartialEq, Eq, Structural)]
pub enum Drain {
    /// Connections may end by themselves; so many are left.
    Waiting(usize),
    /// The connections that are left were aborted, and are given a moment to
    /// unwind.
    Aborting(usize),
    /// The process may exit.
    Done,
}

/// What happens while draining.
#[derive(Clone, Copy, Debug, PartialEq, Eq, Structural)]
pub enum DrainEvent {
    /// A connection ended.
    Ended,
    /// The time for this step is over.
    TimedOut,
}

/// The progress after an event.
pub open spec fn drain_after(state: Drain, event: DrainEvent) -> Drain {
    match (state, event) {
        (Drain::Waiting(n), DrainEvent::Ended) => if n <= 1 {
            Drain::Done
        } else {
            Drain::Waiting((n - 1) as usize)
        },
        (Drain::Waiting(n), DrainEvent::TimedOut) => Drain::Aborting(n),
        (Drain::Aborting(n), DrainEvent::Ended) => if n <= 1 {
            Drain::Done
        } else {
            Drain::Aborting((n - 1) as usize)
        },
        (Drain::Aborting(_), DrainEvent::TimedOut) => Drain::Done,
        (Drain::Done, _) => Drain::Done,
    }
}

impl Drain {
    /// Begins to drain so many connections. There is nothing to wait for where
    /// there are none.
    pub fn start(in_flight: usize) -> (r: Self)
        ensures
            r == (if in_flight == 0 {
                Drain::Done
            } else {
                Drain::Waiting(in_flight)
            }),
    {
        if in_flight == 0 {
            Drain::Done
        } else {
            Drain::Waiting(in_flight)
        }
    }

    /// The progress after an event.
    pub fn step(self, event: DrainEvent) -> (r: Self)
        ensures
            r == drain_after(self, event),
    {
        match (self, event) {
            (Drain::Waiting(n), DrainEvent::Ended) => {
                if n <= 1 {
                    Drain::Done
                } else {
                    Drain::Waiting(n - 1)
                }
            },
            (Drain::Waiting(n), DrainEvent::TimedOut) => Drain::Aborting(n),
            (Drain::Aborting(n), DrainEvent::Ended) => {
                if n <= 1 {
                    Drain::Done
                } else {
                    Drain::Aborting(n - 1)
                }
            },
            (Drain::Aborting(_), DrainEvent::TimedOut) => Drain::Done,
            (Drain::Done, _) => Drain::Done,
        }
    }
}

/// The progress after several events in turn.
pub open spec fn drain_after_all(state: Drain, events: Seq<DrainEvent>) -> Drain
    decreases events.len(),
{
    if events.len() == 0 {
        state
    } else {
        drain_after(drain_after_all(state, events.drop_last()), events.last())
    }
}

/// How many more events there can be before the process exits: each connection
/// ends once, and each of the two steps times out once.
pub open spec fn events_left(state: Drain) -> int {
    match state {
        Drain::Waiting(n) => n + 2,
        Drain::Aborting(n) => n + 1,
        Drain::Done => 0,
    }
}

/// A shutdown does not hang: `n` connections are drained or aborted after at
/// most `n + 2` events.
pub proof fn shutdown_ends(n: usize, events: Seq<DrainEvent>)
    requires
        events.len() >= n + 2,
    ensures
        drain_after_all(Drain::Waiting(n), events) == Drain::Done,
{
    events_run_out(Drain::Waiting(n), events);
}

/// Each event uses up at least one of those that are left.
proof fn events_run_out(state: Drain, events: Seq<DrainEvent>)
    ensures
        drain_after_all(state, events) == Drain::Done || events_left(
            drain_after_all(state, events),
        ) <= events_left(state) - events.len(),
    decreases events.len(),
{
    if events.len() > 0 {
        events_run_out(state, events.drop_last());
    }
}

/// Where every connection ends in time, none is aborted.
pub proof fn short_tasks_are_awaited(n: usize, events: Seq<DrainEvent>)
    requires
        events.len() <= n,
        forall|i: int| 0 <= i < events.len() ==> events[i] == DrainEvent::Ended,
    ensures
        drain_after_all(Drain::Waiting(n), events) == (if n > 0 && events.len() == n {
            Drain::Done
        } else {
            Drain::Waiting((n - events.len()) as usize)
        }),
    decreases events.len(),
{
    if events.len() > 0 {
        let before = events.drop_last();
        assert forall|i: int| 0 <= i < before.len() implies before[i] == DrainEvent::Ended by {
            assert(before[i] == events[i]);
        }
        short_tasks_are_awaited(n, before);
        assert(events.last() == events[events.len() - 1]);
    }
}

/// A setting that is a number in decimal is taken as so many seconds; a missing one,
/// and one that is no number, leave the default of 25 seconds.
pub proof fn timeouts_read_back(secs: u64, raw: Seq<char>)
    ensures
        drain_timeout(Some(text::signed_decimal(secs as int))) == secs,
        drain_timeout(None) == 25,
        text::u64_value(raw) is None ==> drain_timeout(Some(raw)) == 25,
{
    text::integers_read_back(secs as int);
}

/// Connections that have not ended in time are aborted, all of them; those that have
/// not unwound in time after that are left.
pub proof fn late_tasks_are_aborted(n: usize, events: Seq<DrainEvent>)
    requires
        events.len() < n,
        forall|i: int| 0 <= i < events.len() ==> events[i] == DrainEvent::Ended,
    ensures
        drain_after_all(Drain::Waiting(n), events.push(DrainEvent::TimedOut)) == Drain::Aborting(
            (n - events.len()) as usize,
        ),
        drain_after_all(
            Drain::Waiting(n),
            events.push(DrainEvent::TimedOut).push(DrainEvent::TimedOut),
        ) == Drain::Done,
{
    short_tasks_are_awaited(n, events);
    let once = events.push(DrainEvent::TimedOut);
    let twice = once.push(DrainEvent::TimedOut);
    assert(once.drop_last() =~= events);
    assert(twice.drop_last() =~= once);
}

/// Aborted connections are counted down as they unwind, and the process exits after
/// the last.
pub proof fn aborted_tasks_are_counted(n: usize)
    ensures
        n > 1 ==> drain_after(Drain::Aborting(n), DrainEvent::Ended) == Drain::Aborting(
            (n - 1) as usize,
        ),
        n <= 1 ==> drain_after(Drain::Aborting(n), DrainEvent::Ended) == Drain::Done,
        forall|event: DrainEvent| #[trigger] drain_after(Drain::Done, event) == Drain::Done,
{
}

} // verus!
