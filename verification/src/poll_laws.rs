//! What the poller guarantees over a whole run.
use crate::environment::value_of;
use crate::ipc_client::{found_out, PollResult, StatusReply};
use crate::poll::{
    cadence, interval_after, later, secs_in, step_after_report, step_after_wake, window_open,
    Moment, PollCmd, PollConfig, Step, Wake,
};
use crate::text::parsed;
use vstd::prelude::*;

verus! {

/// What happens to a poller: a poll comes to its end, or a wait does.
pub enum PollEvent {
    /// The daemon was asked and answered this, or could not be asked; what was
    /// found out was reported, or nobody was there to take it.
    Polled { reply: Result<StatusReply, String>, delivered: bool },
    /// A wait was ended or interrupted.
    Woken { wake: Wake },
}

/// A poller in the middle of a run.
pub struct Run {
    pub interval: u64,
    /// What the poller does next.
    pub step: Step,
    /// What it has reported so far.
    pub reports: Seq<PollResult>,
}

/// The run before anything has happened, as [`crate::poll::Poller::start`] gives
/// it.
pub open spec fn begun(interval: u64) -> Run {
    Run { interval, step: Step::Poll, reports: Seq::empty() }
}

/// The event is one that can come while the poller does this.
pub open spec fn answers(step: Step, event: PollEvent) -> bool {
    match event {
        PollEvent::Polled { .. } => step is Poll,
        PollEvent::Woken { .. } => step is Wait,
    }
}

/// The run once the event has come: the end of a poll is reported and followed
/// by [`crate::poll::Poller::after_report`], that of a wait by
/// [`crate::poll::Poller::on_wake`].
pub open spec fn after(run: Run, event: PollEvent) -> Run {
    match event {
        PollEvent::Polled { reply, delivered } => Run {
            step: step_after_report(run.interval, delivered),
            reports: run.reports.push(found_out(reply)),
            ..run
        },
        PollEvent::Woken { wake } => Run {
            interval: interval_after(run.interval, wake),
            step: step_after_wake(wake),
            ..run
        },
    }
}

/// The run once all the events have come, in order.
pub open spec fn run_of(interval: u64, events: Seq<PollEvent>) -> Run
    decreases events.len(),
{
    if events.len() == 0 {
        begun(interval)
    } else {
        after(run_of(interval, events.drop_last()), events.last())
    }
}

/// Each event comes while the poller does what it answers.
pub open spec fn possible(interval: u64, events: Seq<PollEvent>) -> bool
    decreases events.len(),
{
    events.len() == 0 || {
        &&& possible(interval, events.drop_last())
        &&& answers(run_of(interval, events.drop_last()).step, events.last())
    }
}

/// What the daemon answered, poll by poll.
pub open spec fn replies(events: Seq<PollEvent>) -> Seq<Result<StatusReply, String>>
    decreases events.len(),
{
    if events.len() == 0 {
        Seq::empty()
    } else {
        match events.last() {
            PollEvent::Polled { reply, .. } => replies(events.drop_last()).push(reply),
            PollEvent::Woken { .. } => replies(events.drop_last()),
        }
    }
}

/// Each poll is reported once, in the order of the polls, as what its reply
/// says: the daemon is reachable with the reply's own values if it answered with
/// its status, and unreachable otherwise.
pub proof fn law_one_report_per_poll(interval: u64, events: Seq<PollEvent>)
    ensures
        run_of(interval, events).reports == replies(events).map_values(
            |r: Result<StatusReply, String>| found_out(r),
        ),
    decreases events.len(),
{
    let f = |r: Result<StatusReply, String>| found_out(r);
    if events.len() == 0 {
        assert(run_of(interval, events).reports =~= replies(events).map_values(f));
    } else {
        law_one_report_per_poll(interval, events.drop_last());
        assert(run_of(interval, events).reports =~= replies(events).map_values(f));
    }
}

/// The first thing that happens is the end of a poll: no wait comes before it.
pub proof fn law_first_poll_comes_before_any_wait(interval: u64, events: Seq<PollEvent>)
    requires
        possible(interval, events),
        events.len() > 0,
    ensures
        events[0] is Polled,
    decreases events.len(),
{
    if events.len() == 1 {
        assert(events.drop_last() == Seq::<PollEvent>::empty());
    } else {
        law_first_poll_comes_before_any_wait(interval, events.drop_last());
    }
}

/// Two polls never follow each other without a wait between them.
pub proof fn law_polls_are_apart(interval: u64, events: Seq<PollEvent>, i: int)
    requires
        possible(interval, events),
        0 <= i < events.len() - 1,
        events[i] is Polled,
    ensures
        events[i + 1] is Woken,
    decreases events.len(),
{
    let front = events.drop_last();
    if i + 1 < events.len() - 1 {
        law_polls_are_apart(interval, front, i);
    } else {
        assert(front.last() == events[i]);
        assert(answers(run_of(interval, front).step, events.last()));
    }
}

/// A report that nobody took is the last thing that the poller does, and so is
/// a wait after which nobody is left to send commands.
pub proof fn law_poller_stops(interval: u64, events: Seq<PollEvent>, i: int)
    requires
        possible(interval, events),
        0 <= i < events.len(),
        match events[i] {
            PollEvent::Polled { reply, delivered } => !delivered,
            PollEvent::Woken { wake } => wake is Disconnected,
        },
    ensures
        i == events.len() - 1,
        run_of(interval, events).step is Stop,
    decreases events.len(),
{
    let front = events.drop_last();
    if i < events.len() - 1 {
        law_poller_stops(interval, front, i);
    }
}

// ---------------------------------------------------------------------------
// Cadence
// ---------------------------------------------------------------------------

/// The interval is the one that is configured for the state: for the use of the
/// menu whatever else holds, and otherwise for the reachability.
pub proof fn law_cadence_is_configured(cfg: PollConfig, reachable: bool)
    ensures
        cadence(true, reachable, cfg) == cfg.active,
        cadence(false, true, cfg) == cfg.idle,
        cadence(false, false, cfg) == cfg.unreachable,
{
}

/// What is configured for another state has no influence.
pub proof fn law_cadence_depends_on_its_state_only(a: PollConfig, b: PollConfig, reachable: bool)
    ensures
        a.active == b.active ==> cadence(true, reachable, a) == cadence(true, reachable, b),
        a.idle == b.idle ==> cadence(false, true, a) == cadence(false, true, b),
        a.unreachable == b.unreachable ==> cadence(false, false, a) == cadence(false, false, b),
        a.active != b.active ==> cadence(true, reachable, a) != cadence(true, reachable, b),
        a.idle != b.idle ==> cadence(false, true, a) != cadence(false, true, b),
        a.unreachable != b.unreachable ==> cadence(false, false, a) != cadence(false, false, b),
{
}

/// The window is open exactly before its end, and a menu that was never used has
/// none.
pub proof fn law_window(end: Moment, now: Moment)
    ensures
        window_open(Some(end), now) <==> now.nanos < end.nanos,
        !window_open(None, now),
{
}

/// A second is a thousand million nanoseconds.
pub proof fn law_later(m: Moment, a: u64, b: u64)
    ensures
        later(m, a) - m.nanos == a * 1_000_000_000,
        a < b ==> later(m, a) < later(m, b),
{
    assert(a < b ==> a * 1_000_000_000 < b * 1_000_000_000) by (nonlinear_arith);
}

/// A variable sets its interval exactly where it holds a whole number that is not
/// zero and fits, and the default stands otherwise.
pub proof fn law_seconds_of_variable(
    env: Seq<(Seq<char>, Seq<char>)>,
    name: Seq<char>,
    default: u64,
    n: int,
)
    ensures
        value_of(env, name) is None ==> secs_in(env, name, default) == default,
        value_of(env, name) matches Some(v) ==> {
            &&& parsed(v) is None ==> secs_in(env, name, default) == default
            &&& parsed(v) == Some(n) && 0 < n <= u64::MAX ==> secs_in(env, name, default) == n
            &&& parsed(v) == Some(n) && (n <= 0 || n > u64::MAX) ==> secs_in(env, name, default)
                == default
        },
{
}

// ---------------------------------------------------------------------------
// Steps
// ---------------------------------------------------------------------------

/// After a report the poller waits its interval; without anyone to take the
/// report it stops.
pub proof fn law_step_after_report(interval: u64)
    ensures
        step_after_report(interval, true) == (Step::Wait { secs: interval }),
        step_after_report(interval, false) == Step::Stop,
{
}

/// A wait ends in a poll when it is over or is cut short, starts anew with
/// another interval, and is the last thing where nobody is left.
pub proof fn law_step_after_wake(secs: u64)
    ensures
        step_after_wake(Wake::Elapsed) == Step::Poll,
        step_after_wake(Wake::Command { cmd: PollCmd::Now }) == Step::Poll,
        step_after_wake(Wake::Command { cmd: PollCmd::SetInterval { secs } }) == (Step::Wait {
            secs,
        }),
        step_after_wake(Wake::Disconnected) == Step::Stop,
{
}

/// Only a command for another interval changes the interval.
pub proof fn law_interval_after(interval: u64, secs: u64)
    ensures
        interval_after(interval, Wake::Elapsed) == interval,
        interval_after(interval, Wake::Command { cmd: PollCmd::Now }) == interval,
        interval_after(interval, Wake::Command { cmd: PollCmd::SetInterval { secs } }) == secs,
        interval_after(interval, Wake::Disconnected) == interval,
{
}

} // verus!
