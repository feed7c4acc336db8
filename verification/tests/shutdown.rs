//! Draining connections at shutdown.
use std::time::Duration;

use postgresql_trino_gateway::shutdown::{
    DEFAULT_SHUTDOWN_DRAIN_TIMEOUT, Drain, DrainEvent, TaskEnd, log_task_result, parse_drain_timeout,
};

#[test]
fn drain_timeout_parser_handles_inputs() {
    let default = Duration::from_secs(DEFAULT_SHUTDOWN_DRAIN_TIMEOUT);
    let parse = |raw: Option<&str>| Duration::from_secs(parse_drain_timeout(raw.map(str::to_owned)));
    assert_eq!(default, Duration::from_secs(25));
    assert_eq!(parse(None), default);
    assert_eq!(parse(Some("not-a-number")), default);
    assert_eq!(parse(Some("0")), Duration::from_secs(0));
    assert_eq!(parse(Some("60")), Duration::from_secs(60));
}

#[test]
fn timeouts_are_read_as_unsigned_numbers() {
    let parse = |raw: &str| parse_drain_timeout(Some(raw.to_owned()));
    assert_eq!(parse("+7"), 7);
    assert_eq!(parse("18446744073709551615"), u64::MAX);
    for bad in ["18446744073709551616", "-1", "", "+", " 5", "5s"] {
        assert_eq!(parse(bad), 25, "{bad:?}");
    }
}

#[test]
fn nothing_to_drain_is_done_at_once() {
    assert_eq!(Drain::start(0), Drain::Done);
}

#[test]
fn connections_that_end_in_time_are_awaited() {
    let mut state = Drain::start(3);
    for left in [2, 1] {
        state = state.step(DrainEvent::Ended);
        assert_eq!(state, Drain::Waiting(left));
    }
    assert_eq!(state.step(DrainEvent::Ended), Drain::Done);
}

#[test]
fn a_shutdown_ends_after_two_timeouts() {
    let aborting = Drain::start(2).step(DrainEvent::TimedOut);
    assert_eq!(aborting, Drain::Aborting(2));
    assert_eq!(aborting.step(DrainEvent::Ended).step(DrainEvent::Ended), Drain::Done);
    assert_eq!(aborting.step(DrainEvent::TimedOut), Drain::Done);
    assert_eq!(Drain::Done.step(DrainEvent::Ended), Drain::Done);
}

#[test]
fn only_real_failures_are_logged() {
    assert_eq!(log_task_result(TaskEnd::Finished), None);
    assert_eq!(log_task_result(TaskEnd::Cancelled), None);
    assert_eq!(log_task_result(TaskEnd::Panicked), Some("connection task panicked"));
    assert_eq!(log_task_result(TaskEnd::Failed), Some("connection task failed during drain"));
}
