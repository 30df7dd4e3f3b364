//! The per-user service: a `systemd --user` unit on Linux, a launchd
//! LaunchAgent on macOS.
//!
//! What has to be done is worked out here, as a list of effects. They are
//! carried out in order; after each of them [`after_effect`] says whether the
//! work goes on.
use crate::environment::Platform;
use crate::poll::{later, Clock, Moment, MAX_ELAPSED};
use crate::service_files::{
    info_text, make_info_text, make_plist_template, make_plist_text, make_unit_template,
    make_unit_text, plist_template, plist_text, unit_template, unit_text,
};
use crate::text::{same_text, trim, trimmed, views};
use std::time::Instant;
use vstd::prelude::*;

verus! {

// ---------------------------------------------------------------------------
// Places
// ---------------------------------------------------------------------------

/// A directory that the user has.
#[derive(Clone, Copy, Debug, PartialEq, Eq, Structural)]
pub enum Base {
    Config,
    Home,
}

/// A file below one of the user's directories: the directory it is in, which is
/// created where it is missing, and its name.
#[derive(Debug, PartialEq, Eq)]
pub struct Location {
    pub base: Base,
    pub dir: String,
    pub name: String,
}

/// Where the unit of the service is on Linux.
pub fn unit_path() -> (r: Location)
    ensures
        r.base == Base::Config,
        r.dir@ == "systemd/user"@,
        r.name@ == "tetron-systray.service"@,
{
    Location {
        base: Base::Config,
        dir: "systemd/user".to_owned(),
        name: "tetron-systray.service".to_owned(),
    }
}

/// Where the property list of the LaunchAgent is on macOS.
pub fn plist_path() -> (r: Location)
    ensures
        r.base == Base::Home,
        r.dir@ == "Library/LaunchAgents"@,
        r.name@ == "com.tetron.systray.plist"@,
{
    Location {
        base: Base::Home,
        dir: "Library/LaunchAgents".to_owned(),
        name: "com.tetron.systray.plist".to_owned(),
    }
}

/// Where the log is on macOS.
pub fn log_path() -> (r: Location)
    ensures
        r.base == Base::Home,
        r.dir@ == "Library/Logs"@,
        r.name@ == "tetron-systray.log"@,
{
    Location {
        base: Base::Home,
        dir: "Library/Logs".to_owned(),
        name: "tetron-systray.log".to_owned(),
    }
}

/// Where the app bundle is on macOS.
pub fn bundle_path() -> (r: Location)
    ensures
        r.base == Base::Home,
        r.dir@ == "Applications"@,
        r.name@ == "TetronSystray.app"@,
{
    Location {
        base: Base::Home,
        dir: "Applications".to_owned(),
        name: "TetronSystray.app".to_owned(),
    }
}

/// Where the copy of the program is in the app bundle.
pub fn bundle_exe() -> (r: String)
    ensures
        r@ == "Contents/MacOS/tetron-systray"@,
{
    "Contents/MacOS/tetron-systray".to_owned()
}

/// Where the description is in the app bundle.
pub fn bundle_info() -> (r: String)
    ensures
        r@ == "Contents/Info.plist"@,
{
    "Contents/Info.plist".to_owned()
}

/// What is said of a directory that the user does not have.
pub fn missing_base(base: Base) -> (r: String)
    ensures
        r@ == (match base {
            Base::Config => "could not determine config directory"@,
            Base::Home => "could not determine home directory"@,
        }),
{
    match base {
        Base::Config => "could not determine config directory".to_owned(),
        Base::Home => "could not determine home directory".to_owned(),
    }
}

/// What is said where the running program is not known.
pub fn program_failure() -> (r: String)
    ensures
        r@ == "failed to determine current executable path"@,
{
    "failed to determine current executable path".to_owned()
}

/// What is said of a file that could not be written.
pub fn write_failure(path: &str) -> (r: String)
    ensures
        r@ == "failed to write "@ + path@,
{
    let mut out: String = "failed to write ".to_owned();
    out.append(path);
    out
}

// ---------------------------------------------------------------------------
// Effects
// ---------------------------------------------------------------------------

/// One thing to be done to install or uninstall the service.
#[derive(Debug, PartialEq, Eq)]
pub enum Effect {
    /// Write the unit or the property list.
    WriteService { text: String },
    /// Delete the unit or the property list.
    RemoveService,
    /// Make the app bundle, with this description and a copy of the program.
    MakeBundle { info: String },
    /// Delete the app bundle, where there is one.
    RemoveBundle,
    /// Run a command; a quiet one gives neither output nor warnings.
    Run { program: String, args: Vec<String>, quiet: bool },
    /// Print a line.
    Say { text: String },
    /// Print a line to the error output.
    Note { text: String },
}

/// Mathematical model of an [`Effect`].
pub enum EffectView {
    WriteService { text: Seq<char> },
    RemoveService,
    MakeBundle { info: Seq<char> },
    RemoveBundle,
    Run { program: Seq<char>, args: Seq<Seq<char>>, quiet: bool },
    Say { text: Seq<char> },
    Note { text: Seq<char> },
}

impl View for Effect {
    type V = EffectView;

    open spec fn view(&self) -> EffectView {
        match *self {
            Effect::WriteService { text } => EffectView::WriteService { text: text@ },
            Effect::RemoveService => EffectView::RemoveService,
            Effect::MakeBundle { info } => EffectView::MakeBundle { info: info@ },
            Effect::RemoveBundle => EffectView::RemoveBundle,
            Effect::Run { program, args, quiet } => EffectView::Run {
                program: program@,
                args: views(args@),
                quiet,
            },
            Effect::Say { text } => EffectView::Say { text: text@ },
            Effect::Note { text } => EffectView::Note { text: text@ },
        }
    }
}

/// The models of a list of effects.
pub open spec fn effect_views(v: Seq<Effect>) -> Seq<EffectView> {
    v.map_values(|e: Effect| e@)
}

/// A command whose failure gives a warning.
pub open spec fn command(program: Seq<char>, args: Seq<Seq<char>>) -> EffectView {
    EffectView::Run { program, args, quiet: false }
}

fn push_effect(out: &mut Vec<Effect>, e: Effect)
    ensures
        effect_views(final(out)@) == effect_views(old(out)@).push(e@),
{
    out.push(e);
    assert(effect_views(out@) == effect_views(old(out)@).push(e@));
}

fn two(a: &str, b: &str) -> (r: Vec<String>)
    ensures
        views(r@) == seq![a@, b@],
{
    let mut v: Vec<String> = Vec::new();
    v.push(a.to_owned());
    v.push(b.to_owned());
    assert(views(v@) == seq![a@, b@]);
    v
}

fn three(a: &str, b: &str, c: &str) -> (r: Vec<String>)
    ensures
        views(r@) == seq![a@, b@, c@],
{
    let mut v: Vec<String> = two(a, b);
    let ghost before = v@;
    v.push(c.to_owned());
    assert(views(v@) == views(before).push(c@));
    v
}

fn four(a: &str, b: &str, c: &str, d: &str) -> (r: Vec<String>)
    ensures
        views(r@) == seq![a@, b@, c@, d@],
{
    let mut v: Vec<String> = three(a, b, c);
    let ghost before = v@;
    v.push(d.to_owned());
    assert(views(v@) == views(before).push(d@));
    v
}

fn push_command(out: &mut Vec<Effect>, program: &str, args: Vec<String>)
    ensures
        effect_views(final(out)@) == effect_views(old(out)@).push(command(program@, views(args@))),
{
    push_effect(out, Effect::Run { program: program.to_owned(), args, quiet: false });
}

// ---------------------------------------------------------------------------
// Install
// ---------------------------------------------------------------------------

/// Where the files of the service are.
#[derive(Debug, PartialEq, Eq)]
pub struct ServiceFiles {
    /// The unit or the property list.
    pub service: String,
    /// The log on macOS.
    pub log: String,
    /// The program in the app bundle on macOS.
    pub bundled: String,
}

/// Mathematical model of [`ServiceFiles`].
pub struct FilesView {
    pub service: Seq<char>,
    pub log: Seq<char>,
    pub bundled: Seq<char>,
}

impl View for ServiceFiles {
    type V = FilesView;

    open spec fn view(&self) -> FilesView {
        FilesView { service: self.service@, log: self.log@, bundled: self.bundled@ }
    }
}

/// The model of a text that was asked for, or of the reason why there is none.
pub open spec fn found(r: Result<String, String>) -> Result<Seq<char>, Seq<char>> {
    match r {
        Ok(text) => Ok(text@),
        Err(e) => Err(e@),
    }
}

/// The places of the files of the service, or why they have none.
pub open spec fn files_found(r: Result<ServiceFiles, String>) -> Result<FilesView, Seq<char>> {
    match r {
        Ok(files) => Ok(files@),
        Err(e) => Err(e@),
    }
}

/// The model of a list of effects, or of the reason why there is none.
pub open spec fn planned(r: Result<Vec<Effect>, String>) -> Result<Seq<EffectView>, Seq<char>> {
    match r {
        Ok(effects) => Ok(effect_views(effects@)),
        Err(e) => Err(e@),
    }
}

/// The program that the service runs: the one in the app bundle on macOS, the
/// running one elsewhere.
pub open spec fn exe_of(platform: Platform, running: Seq<char>, bundled: Seq<char>) -> Seq<char> {
    match platform {
        Platform::MacOs => bundled,
        _ => running,
    }
}

/// The program that the service runs.
pub fn service_exe(platform: Platform, running: &str, bundled: &str) -> (r: String)
    ensures
        r@ == exe_of(platform, running@, bundled@),
{
    match platform {
        Platform::MacOs => bundled.to_owned(),
        _ => running.to_owned(),
    }
}

/// The unit or the property list that an installation writes.
pub open spec fn service_text(
    platform: Platform,
    port: nat,
    running: Seq<char>,
    files: FilesView,
) -> Seq<char> {
    let exe = exe_of(platform, running, files.bundled);
    match platform {
        Platform::MacOs => plist_text(plist_template(), exe, files.log, port),
        _ => unit_text(unit_template(), exe, port),
    }
}

/// What an installation does, up to the wait for the service.
pub open spec fn install_effects(
    platform: Platform,
    port: nat,
    running: Seq<char>,
    files: FilesView,
) -> Seq<EffectView> {
    let write = EffectView::WriteService { text: service_text(platform, port, running, files) };
    let waiting = EffectView::Note { text: "waiting for tetron-systray to start…"@ };
    match platform {
        Platform::Linux => seq![
            write,
            command("systemctl"@, seq!["--user"@, "daemon-reload"@]),
            command("systemctl"@, seq!["--user"@, "enable"@, "--now"@, "tetron-systray"@]),
            command("systemctl"@, seq!["--user"@, "restart"@, "tetron-systray"@]),
            waiting,
        ],
        Platform::MacOs => seq![
            EffectView::MakeBundle { info: info_text() },
            write,
            EffectView::Run {
                program: "launchctl"@,
                args: seq!["unload"@, files.service],
                quiet: true,
            },
            command("launchctl"@, seq!["load"@, "-w"@, files.service]),
            waiting,
        ],
        Platform::Other => Seq::empty(),
    }
}

/// What an installation does, up to the wait for the service, or why it does
/// nothing: the running program is not known, the platform has no service, or
/// the files have no place.
pub open spec fn install_plan(
    platform: Platform,
    port: nat,
    running: Result<Seq<char>, Seq<char>>,
    files: Result<FilesView, Seq<char>>,
) -> Result<Seq<EffectView>, Seq<char>> {
    match running {
        Err(e) => Err(e),
        Ok(exe) => if platform == Platform::Other {
            Err("per-user service install not supported on this platform"@)
        } else {
            match files {
                Err(e) => Err(e),
                Ok(f) => Ok(install_effects(platform, port, exe, f)),
            }
        },
    }
}

/// What `install` does, up to the wait for the service. Installing over a
/// service that runs already restarts it, so that the new program takes over.
pub fn install(
    platform: Platform,
    port: u16,
    running: Result<String, String>,
    files: Result<ServiceFiles, String>,
) -> (r: Result<Vec<Effect>, String>)
    ensures
        planned(r) == install_plan(platform, port as nat, found(running), files_found(files)),
{
    let running: String = match running {
        Ok(path) => path,
        Err(e) => {
            return Err(e);
        },
    };
    if platform == Platform::Other {
        return Err("per-user service install not supported on this platform".to_owned());
    }
    let files: ServiceFiles = match files {
        Ok(files) => files,
        Err(e) => {
            return Err(e);
        },
    };
    let exe: String = service_exe(platform, running.as_str(), files.bundled.as_str());
    let mut out: Vec<Effect> = Vec::new();
    assert(effect_views(out@) == Seq::<EffectView>::empty());
    match platform {
        Platform::Linux => {
            let text: String = make_unit_text(make_unit_template().as_str(), exe.as_str(), port);
            push_effect(&mut out, Effect::WriteService { text });
            push_command(&mut out, "systemctl", two("--user", "daemon-reload"));
            push_command(
                &mut out,
                "systemctl",
                four("--user", "enable", "--now", "tetron-systray"),
            );
            push_command(&mut out, "systemctl", three("--user", "restart", "tetron-systray"));
        },
        _ => {
            push_effect(&mut out, Effect::MakeBundle { info: make_info_text() });
            let text: String = make_plist_text(
                make_plist_template().as_str(),
                exe.as_str(),
                files.log.as_str(),
                port,
            );
            push_effect(&mut out, Effect::WriteService { text });
            push_effect(
                &mut out,
                Effect::Run {
                    program: "launchctl".to_owned(),
                    args: two("unload", files.service.as_str()),
                    quiet: true,
                },
            );
            push_command(&mut out, "launchctl", three("load", "-w", files.service.as_str()));
        },
    }
    push_effect(
        &mut out,
        Effect::Note { text: "waiting for tetron-systray to start…".to_owned() },
    );
    assert(effect_views(out@) =~= install_effects(platform, port as nat, running@, files@));
    Ok(out)
}

/// What is said of a service that does not become active.
pub open spec fn never_active() -> Seq<char> {
    "service was installed but never reported active.\n"@
        + "Check the service logs (journalctl --user -u tetron-systray on Linux, "@
        + "or the log path in the plist on macOS)."@
}

/// How an installation ends, once the wait for the service is over.
pub open spec fn ended(active: bool) -> Result<Seq<char>, Seq<char>> {
    if active {
        Ok("tetron-systray service installed and running."@)
    } else {
        Err(never_active())
    }
}

/// How an installation ends, once the wait for the service is over.
pub fn install_outcome(active: bool) -> (r: Result<String, String>)
    ensures
        found(r) == ended(active),
{
    if active {
        Ok("tetron-systray service installed and running.".to_owned())
    } else {
        let mut out: String = "service was installed but never reported active.\n".to_owned();
        out.append("Check the service logs (journalctl --user -u tetron-systray on Linux, ");
        out.append("or the log path in the plist on macOS).");
        Err(out)
    }
}

// ---------------------------------------------------------------------------
// Uninstall
// ---------------------------------------------------------------------------

/// What an uninstallation does; `installed` says whether the unit or the
/// property list is there.
pub open spec fn uninstall_effects(platform: Platform, service: Seq<char>, installed: bool) -> Seq<
    EffectView,
> {
    if !installed {
        seq![EffectView::Say { text: "Service not installed."@ }]
    } else {
        match platform {
            Platform::Linux => seq![
                command("systemctl"@, seq!["--user"@, "disable"@, "--now"@, "tetron-systray"@]),
                EffectView::RemoveService,
                command("systemctl"@, seq!["--user"@, "daemon-reload"@]),
                EffectView::Say { text: "Removed systemd --user service."@ },
            ],
            Platform::MacOs => seq![
                command("launchctl"@, seq!["unload"@, "-w"@, service]),
                EffectView::RemoveService,
                EffectView::RemoveBundle,
                EffectView::Say { text: "Removed launchd LaunchAgent."@ },
            ],
            Platform::Other => Seq::empty(),
        }
    }
}

/// What an uninstallation does, or why it does nothing.
pub open spec fn uninstall_plan(
    platform: Platform,
    files: Result<FilesView, Seq<char>>,
    installed: bool,
) -> Result<Seq<EffectView>, Seq<char>> {
    if platform == Platform::Other {
        Err("per-user service uninstall not supported on this platform"@)
    } else {
        match files {
            Err(e) => Err(e),
            Ok(f) => Ok(uninstall_effects(platform, f.service, installed)),
        }
    }
}

/// What `uninstall` does: it stops the service and removes what `install` put
/// there, and leaves the program and the logs.
pub fn uninstall(
    platform: Platform,
    files: Result<ServiceFiles, String>,
    installed: bool,
) -> (r: Result<Vec<Effect>, String>)
    ensures
        planned(r) == uninstall_plan(platform, files_found(files), installed),
{
    if platform == Platform::Other {
        return Err("per-user service uninstall not supported on this platform".to_owned());
    }
    let files: ServiceFiles = match files {
        Ok(files) => files,
        Err(e) => {
            return Err(e);
        },
    };
    let mut out: Vec<Effect> = Vec::new();
    assert(effect_views(out@) == Seq::<EffectView>::empty());
    if !installed {
        push_effect(&mut out, Effect::Say { text: "Service not installed.".to_owned() });
    } else {
        match platform {
            Platform::Linux => {
                push_command(
                    &mut out,
                    "systemctl",
                    four("--user", "disable", "--now", "tetron-systray"),
                );
                push_effect(&mut out, Effect::RemoveService);
                push_command(&mut out, "systemctl", two("--user", "daemon-reload"));
                push_effect(
                    &mut out,
                    Effect::Say { text: "Removed systemd --user service.".to_owned() },
                );
            },
            _ => {
                push_command(
                    &mut out,
                    "launchctl",
                    three("unload", "-w", files.service.as_str()),
                );
                push_effect(&mut out, Effect::RemoveService);
                push_effect(&mut out, Effect::RemoveBundle);
                push_effect(
                    &mut out,
                    Effect::Say { text: "Removed launchd LaunchAgent.".to_owned() },
                );
            },
        }
    }
    assert(effect_views(out@) =~= uninstall_effects(platform, files.service@, installed));
    Ok(out)
}

// ---------------------------------------------------------------------------
// Carrying out the effects
// ---------------------------------------------------------------------------

/// The work ends if this cannot be done. Commands and messages are of no such
/// weight: a command that fails only gives a warning.
pub open spec fn must_succeed(effect: EffectView) -> bool {
    match effect {
        EffectView::WriteService { .. } => true,
        EffectView::RemoveService => true,
        EffectView::MakeBundle { .. } => true,
        EffectView::RemoveBundle => true,
        _ => false,
    }
}

/// The model of how an effect came out.
pub open spec fn came_out(r: Result<(), String>) -> Result<(), Seq<char>> {
    match r {
        Ok(_) => Ok(()),
        Err(e) => Err(e@),
    }
}

/// Whether the work goes on after an effect, or the error that it ends in.
pub open spec fn going_on(effect: EffectView, outcome: Result<(), Seq<char>>) -> Result<
    (),
    Seq<char>,
> {
    match outcome {
        Err(e) => if must_succeed(effect) {
            Err(e)
        } else {
            Ok(())
        },
        Ok(_) => Ok(()),
    }
}

/// Goes on with the work once an effect was carried out or failed, or ends it
/// with an error.
pub fn after_effect(effect: &Effect, outcome: Result<(), String>) -> (r: Result<(), String>)
    ensures
        came_out(r) == going_on(effect@, came_out(outcome)),
{
    match outcome {
        Ok(_) => Ok(()),
        Err(e) => match effect {
            Effect::WriteService { .. } => Err(e),
            Effect::RemoveService => Err(e),
            Effect::MakeBundle { .. } => Err(e),
            Effect::RemoveBundle => Err(e),
            _ => Ok(()),
        },
    }
}

// ---------------------------------------------------------------------------
// Commands and the wait for the service
// ---------------------------------------------------------------------------

/// How a command ended.
#[derive(Debug, PartialEq, Eq)]
pub enum RunOutcome {
    Success,
    /// It ran and failed, with this status.
    Failed { status: String },
    /// It could not be run.
    NotRun { error: String },
}

/// The warning that a command gives, if it gives one.
pub open spec fn warning(program: Seq<char>, outcome: RunOutcome) -> Option<Seq<char>> {
    match outcome {
        RunOutcome::Success => None,
        RunOutcome::Failed { status } => Some(
            "warning: `"@ + program + "` exited with "@ + status@,
        ),
        RunOutcome::NotRun { error } => Some(
            "warning: failed to run `"@ + program + "`: "@ + error@,
        ),
    }
}

/// The warning to print after a command, if any.
pub fn run_warning(program: &str, outcome: &RunOutcome) -> (r: Option<String>)
    ensures
        r is Some == warning(program@, *outcome) is Some,
        r matches Some(text) ==> warning(program@, *outcome) == Some(text@),
{
    match outcome {
        RunOutcome::Success => None,
        RunOutcome::Failed { status } => {
            let mut out: String = "warning: `".to_owned();
            out.append(program);
            out.append("` exited with ");
            out.append(status.as_str());
            Some(out)
        },
        RunOutcome::NotRun { error } => {
            let mut out: String = "warning: failed to run `".to_owned();
            out.append(program);
            out.append("`: ");
            out.append(error.as_str());
            Some(out)
        },
    }
}

/// The command that asks for the state of the service.
pub open spec fn state_query(platform: Platform) -> Option<(Seq<char>, Seq<Seq<char>>)> {
    match platform {
        Platform::Linux => Some(
            ("systemctl"@, seq!["--user"@, "is-active"@, "tetron-systray"@]),
        ),
        Platform::MacOs => Some(("launchctl"@, seq!["list"@, "com.tetron.systray"@])),
        Platform::Other => None,
    }
}

/// The command that asks for the state of the service.
pub fn active_query(platform: Platform) -> (r: Option<(String, Vec<String>)>)
    ensures
        r is Some == state_query(platform) is Some,
        r matches Some((program, args)) ==> state_query(platform) == Some(
            (program@, views(args@)),
        ),
{
    match platform {
        Platform::Linux => Some(
            ("systemctl".to_owned(), three("--user", "is-active", "tetron-systray")),
        ),
        Platform::MacOs => Some(("launchctl".to_owned(), two("list", "com.tetron.systray"))),
        Platform::Other => None,
    }
}

/// What a query for the state of the service gave.
#[derive(Debug, PartialEq, Eq)]
pub struct QueryAnswer {
    /// The command succeeded.
    pub success: bool,
    pub stdout: String,
}

/// The answer says that the service is active: on Linux by what it prints, on
/// macOS by whether the command succeeds.
pub open spec fn says_active(platform: Platform, success: bool, stdout: Seq<char>) -> bool {
    match platform {
        Platform::Linux => trimmed(stdout) == "active"@,
        Platform::MacOs => success,
        Platform::Other => false,
    }
}

/// Whether the service is active; it is not if the query could not be made.
pub fn is_active(platform: Platform, answer: &Option<QueryAnswer>) -> (r: bool)
    ensures
        r == (match *answer {
            Some(a) => says_active(platform, a.success, a.stdout@),
            None => false,
        }),
{
    match answer {
        Some(a) => match platform {
            Platform::Linux => same_text(trim(a.stdout.as_str()).as_str(), "active"),
            Platform::MacOs => a.success,
            Platform::Other => false,
        },
        None => false,
    }
}

/// How many seconds an installation waits for the service.
pub const ACTIVE_TIMEOUT_SECS: u64 = 10;

/// What the wait for the service does next.
#[derive(Clone, Copy, Debug, PartialEq, Eq, Structural)]
pub enum WaitStep {
    /// The wait is over; the flag says whether the service became active.
    Done { active: bool },
    /// Ask again after this many milliseconds.
    Sleep { millis: u64 },
}

/// What follows once the service was asked and the clock read. A service that
/// is active ends the wait even after the deadline.
pub open spec fn wait_step(deadline: Moment, active: bool, now: Moment) -> WaitStep {
    if active {
        WaitStep::Done { active: true }
    } else if now.nanos >= deadline.nanos {
        WaitStep::Done { active: false }
    } else {
        WaitStep::Sleep { millis: 250 }
    }
}

/// The wait for the service to become active.
#[derive(Clone, Copy, Debug, PartialEq, Eq, Structural)]
pub struct ActiveWait {
    pub deadline: Moment,
}

impl ActiveWait {
    /// Starts a wait of so many seconds.
    pub fn start(now: Moment, timeout_secs: u64) -> (w: ActiveWait)
        requires
            later(now, timeout_secs) <= i128::MAX,
        ensures
            w.deadline.nanos == later(now, timeout_secs),
    {
        ActiveWait { deadline: now.after_secs(timeout_secs) }
    }

    /// Starts a wait of so many seconds now, by this clock.
    pub fn start_now(clock: &Clock, timeout_secs: u64) -> (w: ActiveWait)
        ensures
            exists|reading: Instant|
                {
                    let now = #[trigger] clock.at(reading);
                    &&& 0 <= now.nanos <= MAX_ELAPSED
                    &&& w.deadline.nanos == later(now, timeout_secs)
                },
    {
        let now: Moment = clock.now();
        ActiveWait::start(now, timeout_secs)
    }

    /// Goes on with the wait, once the service was asked and the clock read.
    pub fn wait_for_active(&self, active: bool, now: Moment) -> (step: WaitStep)
        ensures
            step == wait_step(self.deadline, active, now),
    {
        if active {
            WaitStep::Done { active: true }
        } else if now.nanos >= self.deadline.nanos {
            WaitStep::Done { active: false }
        } else {
            WaitStep::Sleep { millis: 250 }
        }
    }
}

} // verus!
