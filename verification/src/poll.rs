//! How often the daemon is polled, and what the poller does between polls.
use crate::environment::{number_in, Environment};
use std::time::Instant;
use vstd::prelude::*;

verus! {

// ---------------------------------------------------------------------------
// Time
// ---------------------------------------------------------------------------

/// A point in time, as the standard library tells it.
#[verifier::external_type_specification]
#[verifier::external_body]
pub struct ExInstant(std::time::Instant);

/// `std::time::Instant::now` reads the monotonic clock. Nothing is claimed of
/// the reading.
pub assume_specification[ std::time::Instant::now ]() -> std::time::Instant;

/// The most nanoseconds that the standard library tells between two readings:
/// those of `Duration::MAX`.
pub const MAX_ELAPSED: i128 = 18_446_744_073_709_551_615_999_999_999;

/// The nanoseconds from one reading of the monotonic clock to a later one.
pub uninterp spec fn nanos_between(earlier: Instant, later: Instant) -> i128;

/// `std::time::Instant::saturating_duration_since`, in nanoseconds: the time
/// from `earlier` to `later`, never less than nothing and never more than a
/// `Duration` holds. How much it is for two given readings is named and not
/// spelled out.
#[verifier::external_body]
fn nanos_since(earlier: &Instant, later: &Instant) -> (n: i128)
    ensures
        n == nanos_between(*earlier, *later),
        0 <= n <= MAX_ELAPSED,
{
    later.saturating_duration_since(*earlier).as_nanos() as i128
}

/// A point in time, in nanoseconds since a [`Clock`] was started.
#[derive(Clone, Copy, Debug, PartialEq, Eq, Structural)]
pub struct Moment {
    pub nanos: i128,
}

/// How many nanoseconds a second has.
pub const NANOS_PER_SEC: i128 = 1_000_000_000;

/// The moment `secs` seconds after another.
pub open spec fn later(m: Moment, secs: u64) -> int {
    m.nanos + secs * NANOS_PER_SEC
}

impl Moment {
    /// The moment this many seconds later.
    pub fn after_secs(self, secs: u64) -> (r: Moment)
        requires
            later(self, secs) <= i128::MAX,
        ensures
            r.nanos == later(self, secs),
    {
        Moment { nanos: self.nanos + secs as i128 * NANOS_PER_SEC }
    }
}

/// A clock that counts from the moment it was started.
pub struct Clock {
    start: Instant,
}

impl Clock {
    /// The reading that the clock counts from.
    pub closed spec fn started(&self) -> Instant {
        self.start
    }

    /// What the clock shows at a reading: the time that has passed since it was
    /// started.
    pub open spec fn at(&self, reading: Instant) -> Moment {
        Moment { nanos: nanos_between(self.started(), reading) }
    }

    /// Starts a clock. It counts from a reading that is taken now, of which
    /// nothing is claimed.
    pub fn start() -> Clock {
        Clock { start: Instant::now() }
    }

    /// What the clock shows now: the time from its start to a reading, whenever
    /// that is taken.
    pub fn now(&self) -> (m: Moment)
        ensures
            exists|reading: Instant| m == #[trigger] self.at(reading),
            0 <= m.nanos <= MAX_ELAPSED,
    {
        let reading: Instant = Instant::now();
        let m: Moment = Moment { nanos: nanos_since(&self.start, &reading) };
        assert(m == self.at(reading));
        m
    }
}

// ---------------------------------------------------------------------------
// Cadence
// ---------------------------------------------------------------------------

/// The polling intervals, in whole seconds.
#[derive(Clone, Copy, Debug, PartialEq, Eq, Structural)]
pub struct PollConfig {
    /// While the menu is open or was just used.
    pub active: u64,
    /// While the menu is closed and the daemon can be reached.
    pub idle: u64,
    /// While the daemon cannot be reached.
    pub unreachable: u64,
    /// How long the `active` interval holds after the menu was last used.
    pub active_window: u64,
}

/// The seconds that a variable holds, or `default` where it is not set, holds
/// no whole number or holds zero.
pub open spec fn secs_in(env: Seq<(Seq<char>, Seq<char>)>, name: Seq<char>, default: u64) -> int {
    match number_in(env, name, u64::MAX as int) {
        Some(n) => if n > 0 {
            n
        } else {
            default as int
        },
        None => default as int,
    }
}

fn secs(env: &Environment, name: &str, default: u64) -> (n: u64)
    ensures
        n == secs_in(env@, name@, default),
{
    match env.number(name, u64::MAX) {
        Some(n) => if n > 0 {
            n
        } else {
            default
        },
        None => default,
    }
}

impl PollConfig {
    /// The intervals that the environment sets.
    pub fn from_env(env: &Environment) -> (cfg: PollConfig)
        ensures
            cfg.active == secs_in(env@, "TETRON_SYSTRAY_POLL_ACTIVE_SECS"@, 3),
            cfg.idle == secs_in(env@, "TETRON_SYSTRAY_POLL_IDLE_SECS"@, 300),
            cfg.unreachable == secs_in(env@, "TETRON_SYSTRAY_POLL_UNREACHABLE_SECS"@, 30),
            cfg.active_window == secs_in(env@, "TETRON_SYSTRAY_MENU_ACTIVE_WINDOW_SECS"@, 20),
    {
        PollConfig {
            active: secs(env, "TETRON_SYSTRAY_POLL_ACTIVE_SECS", 3),
            idle: secs(env, "TETRON_SYSTRAY_POLL_IDLE_SECS", 300),
            unreachable: secs(env, "TETRON_SYSTRAY_POLL_UNREACHABLE_SECS", 30),
            active_window: secs(env, "TETRON_SYSTRAY_MENU_ACTIVE_WINDOW_SECS", 20),
        }
    }
}

/// No interval that comes from the environment is zero.
pub proof fn law_intervals_are_positive(
    env: Seq<(Seq<char>, Seq<char>)>,
    name: Seq<char>,
    default: u64,
)
    requires
        default > 0,
    ensures
        0 < secs_in(env, name, default) <= u64::MAX,
{
}

/// The window in which the menu counts as in use has not passed.
pub open spec fn window_open(active_until: Option<Moment>, now: Moment) -> bool {
    match active_until {
        Some(t) => now.nanos < t.nanos,
        None => false,
    }
}

/// The interval for a state: the short one while the menu is in use, whether
/// or not the daemon can be reached.
pub open spec fn cadence(in_use: bool, reachable: bool, cfg: PollConfig) -> u64 {
    if in_use {
        cfg.active
    } else if !reachable {
        cfg.unreachable
    } else {
        cfg.idle
    }
}

/// The interval that the poller should be on at the moment `now`.
pub fn interval_at(
    now: Moment,
    active_until: Option<Moment>,
    reachable: bool,
    cfg: &PollConfig,
) -> (secs: u64)
    ensures
        secs == cadence(window_open(active_until, now), reachable, *cfg),
        active_until matches Some(t) && now.nanos < t.nanos ==> secs == cfg.active,
        active_until matches Some(t) && now.nanos >= t.nanos && reachable ==> secs == cfg.idle,
        active_until matches Some(t) && now.nanos >= t.nanos && !reachable ==> secs
            == cfg.unreachable,
        active_until is None && reachable ==> secs == cfg.idle,
        active_until is None && !reachable ==> secs == cfg.unreachable,
{
    let in_use: bool = match active_until {
        Some(t) => now.nanos < t.nanos,
        None => false,
    };
    if in_use {
        cfg.active
    } else if !reachable {
        cfg.unreachable
    } else {
        cfg.idle
    }
}

/// The interval that the poller should be on now: what [`interval_at`] gives
/// for the moment that the clock shows.
pub fn desired_interval(
    clock: &Clock,
    active_until: Option<Moment>,
    reachable: bool,
    cfg: &PollConfig,
) -> (secs: u64)
    ensures
        exists|reading: Instant|
            (#[trigger] clock.at(reading)).nanos >= 0 && secs == cadence(
                window_open(active_until, clock.at(reading)),
                reachable,
                *cfg,
            ),
        active_until is None ==> secs == cadence(false, reachable, *cfg),
        active_until matches Some(t) && t.nanos <= 0 ==> secs == cadence(false, reachable, *cfg),
        active_until is None && reachable ==> secs == cfg.idle,
        active_until is None && !reachable ==> secs == cfg.unreachable,
        active_until matches Some(t) ==> exists|reading: Instant|
            {
                let now = #[trigger] clock.at(reading);
                &&& now.nanos < t.nanos ==> secs == cfg.active
                &&& now.nanos >= t.nanos && reachable ==> secs == cfg.idle
                &&& now.nanos >= t.nanos && !reachable ==> secs == cfg.unreachable
            },
{
    let now: Moment = clock.now();
    interval_at(now, active_until, reachable, cfg)
}

/// After the menu was used, the short interval holds for exactly as long as the
/// window lasts, and then the one that the reachability calls for.
pub proof fn law_window_lasts(used: Moment, now: Moment, reachable: bool, cfg: PollConfig)
    requires
        later(used, cfg.active_window) <= i128::MAX,
    ensures
        ({
            let until = Some(Moment { nanos: later(used, cfg.active_window) as i128 });
            cadence(window_open(until, now), reachable, cfg) == cadence(
                now.nanos - used.nanos < cfg.active_window * NANOS_PER_SEC,
                reachable,
                cfg,
            )
        }),
{
    assert(cfg.active_window * NANOS_PER_SEC >= 0);
}

// ---------------------------------------------------------------------------
// The poller
// ---------------------------------------------------------------------------

/// A command to the poller.
#[derive(Clone, Copy, Debug, PartialEq, Eq, Structural)]
pub enum PollCmd {
    /// Poll at once, whatever is left of the present wait.
    Now,
    /// Wait this many seconds between polls, starting with the present wait.
    SetInterval { secs: u64 },
}

/// What ends a wait of the poller, or interrupts it.
#[derive(Clone, Copy, Debug, PartialEq, Eq, Structural)]
pub enum Wake {
    /// The wait is over.
    Elapsed,
    Command { cmd: PollCmd },
    /// Nobody is left to send commands.
    Disconnected,
}

/// What the poller does next.
#[derive(Clone, Copy, Debug, PartialEq, Eq, Structural)]
pub enum Step {
    /// Ask the daemon for its status and report it.
    Poll,
    /// Start a wait of this many seconds, counted from now.
    Wait { secs: u64 },
    Stop,
}

/// The poller between two polls.
#[derive(Clone, Copy, Debug, PartialEq, Eq, Structural)]
pub struct Poller {
    /// Seconds between polls.
    pub interval: u64,
}

/// The interval after something ended or interrupted a wait.
pub open spec fn interval_after(interval: u64, wake: Wake) -> u64 {
    match wake {
        Wake::Command { cmd: PollCmd::SetInterval { secs } } => secs,
        _ => interval,
    }
}

/// What follows once a status was reported, or could not be.
pub open spec fn step_after_report(interval: u64, delivered: bool) -> Step {
    if delivered {
        Step::Wait { secs: interval }
    } else {
        Step::Stop
    }
}

/// What follows when something ends or interrupts a wait.
pub open spec fn step_after_wake(wake: Wake) -> Step {
    match wake {
        Wake::Elapsed => Step::Poll,
        Wake::Command { cmd: PollCmd::Now } => Step::Poll,
        Wake::Command { cmd: PollCmd::SetInterval { secs } } => Step::Wait { secs },
        Wake::Disconnected => Step::Stop,
    }
}

impl Poller {
    /// A poller that is about to begin, and what it does first: it polls before
    /// any wait.
    pub fn start(interval: u64) -> (r: (Poller, Step))
        ensures
            r.0.interval == interval,
            r.1 == Step::Poll,
    {
        (Poller { interval }, Step::Poll)
    }

    /// What follows once a status was reported, or could not be.
    pub fn after_report(&self, delivered: bool) -> (step: Step)
        ensures
            step == step_after_report(self.interval, delivered),
    {
        if delivered {
            Step::Wait { secs: self.interval }
        } else {
            Step::Stop
        }
    }

    /// What follows when something ends or interrupts a wait.
    pub fn on_wake(&mut self, wake: Wake) -> (step: Step)
        ensures
            final(self).interval == interval_after(old(self).interval, wake),
            step == step_after_wake(wake),
    {
        match wake {
            Wake::Elapsed => Step::Poll,
            Wake::Command { cmd } => match cmd {
                PollCmd::Now => Step::Poll,
                PollCmd::SetInterval { secs } => {
                    self.interval = secs;
                    Step::Wait { secs }
                },
            },
            Wake::Disconnected => Step::Stop,
        }
    }
}

} // verus!
