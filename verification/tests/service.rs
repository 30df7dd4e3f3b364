//! The per-user service.
use tetron_systray::environment::{webui_url, Environment, Platform};
use tetron_systray::poll::{Clock, Moment, NANOS_PER_SEC};
use tetron_systray::service::{
    active_query, after_effect, bundle_exe, bundle_info, bundle_path, install, install_outcome,
    is_active, log_path, missing_base, plist_path, program_failure, run_warning, service_exe,
    uninstall, unit_path, write_failure, ActiveWait, Base, Effect, QueryAnswer, RunOutcome,
    ServiceFiles, WaitStep, ACTIVE_TIMEOUT_SECS,
};
use tetron_systray::service_files::{
    make_info_text, make_plist_template, make_plist_text, make_unit_template, make_unit_text,
};

const UNIT: &str = "\
[Service]
Environment=TETRON_WEBUI_PORT=8080
ExecStart=/home/me/bin/tetron-systray
Restart=on-failure
RestartSec=3
# Polling cadence, in whole seconds:
# Environment=TETRON_SYSTRAY_POLL_ACTIVE_SECS=3
# Environment=TETRON_SYSTRAY_POLL_IDLE_SECS=300
# Environment=TETRON_SYSTRAY_POLL_UNREACHABLE_SECS=30
# Environment=TETRON_SYSTRAY_MENU_ACTIVE_WINDOW_SECS=20

[Unit]
Description=tetron tray client
After=graphical-session.target

[Install]
WantedBy=default.target graphical-session.target
";

fn running() -> Result<String, String> {
    Ok("/home/me/bin/tetron-systray".to_string())
}

fn files() -> Result<ServiceFiles, String> {
    Ok(ServiceFiles {
        service: "/Users/me/Library/LaunchAgents/com.tetron.systray.plist".to_string(),
        log: "/Users/me/Library/Logs/tetron-systray.log".to_string(),
        bundled: "/Users/me/Applications/TetronSystray.app/Contents/MacOS/tetron-systray"
            .to_string(),
    })
}

fn no() -> String {
    "no".to_string()
}

fn written(effects: &[Effect]) -> String {
    for e in effects {
        if let Effect::WriteService { text } = e {
            return text.clone();
        }
    }
    panic!("nothing is written")
}

fn run(program: &str, args: &[&str], quiet: bool) -> Effect {
    Effect::Run {
        program: program.to_string(),
        args: args.iter().map(|a| a.to_string()).collect(),
        quiet,
    }
}

fn note(text: &str) -> Effect {
    Effect::Note { text: text.to_string() }
}

fn say(text: &str) -> Effect {
    Effect::Say { text: text.to_string() }
}

#[test]
fn installing_on_linux() {
    assert_eq!(
        install(Platform::Linux, 8080, running(), files()),
        Ok(vec![
            Effect::WriteService { text: UNIT.to_string() },
            run("systemctl", &["--user", "daemon-reload"], false),
            run("systemctl", &["--user", "enable", "--now", "tetron-systray"], false),
            run("systemctl", &["--user", "restart", "tetron-systray"], false),
            note("waiting for tetron-systray to start…"),
        ])
    );
}

#[test]
fn installing_on_macos() {
    let plist = files().unwrap().service;
    let effects = install(Platform::MacOs, 80, running(), files()).unwrap();
    assert_eq!(effects.len(), 5);
    assert_eq!(effects[0], Effect::MakeBundle { info: make_info_text() });
    assert!(matches!(effects[1], Effect::WriteService { .. }));
    assert_eq!(effects[2], run("launchctl", &["unload", &plist], true));
    assert_eq!(effects[3], run("launchctl", &["load", "-w", &plist], false));
    assert_eq!(effects[4], note("waiting for tetron-systray to start…"));
    let text = written(&effects);
    let bundled = files().unwrap().bundled;
    let log = files().unwrap().log;
    assert!(text.contains("<key>TETRON_WEBUI_PORT</key>\n        <string>80</string>"));
    assert!(text.contains(&format!("<array>\n        <string>{bundled}</string>\n    </array>")));
    assert_eq!(text.matches(&log).count(), 2);
    assert!(!text.contains("/usr/local/bin") && !text.contains("/tmp/") && !text.contains("7870"));
    assert!(text.starts_with("<?xml version=\"1.0\" encoding=\"UTF-8\"?>\n<!DOCTYPE plist"));
    assert!(text.ends_with("</string>\n</dict>\n</plist>\n"));
}

#[test]
fn the_service_runs_the_program_in_the_bundle_on_macos_only() {
    assert_eq!(service_exe(Platform::Linux, "a", "b"), "a");
    assert_eq!(service_exe(Platform::MacOs, "a", "b"), "b");
    assert_eq!(service_exe(Platform::Other, "a", "b"), "a");
}

#[test]
fn filling_in_is_replacing() {
    let unit = make_unit_template()
        .replace("TETRON_WEBUI_PORT=7870", "TETRON_WEBUI_PORT=9")
        .replace("/usr/local/bin/tetron-systray", "/x");
    assert_eq!(make_unit_text(&make_unit_template(), "/x", 9), unit);
    let plist = make_plist_template()
        .replace("<string>7870</string>", "<string>9</string>")
        .replace("/usr/local/bin/tetron-systray", "/x")
        .replace("/tmp/tetron-systray.log", "/y");
    assert_eq!(make_plist_text(&make_plist_template(), "/x", "/y", 9), plist);
    assert_eq!(make_unit_template().matches("7870").count(), 1);
    assert_eq!(make_plist_template().matches("7870").count(), 1);
}

#[test]
fn the_unit_starts_with_the_session_on_every_desktop() {
    let text = written(&install(Platform::Linux, 1, running(), files()).unwrap());
    assert!(text.contains("\nWantedBy=default.target graphical-session.target\n"));
}

#[test]
fn the_bundle_has_an_identifier_and_no_dock_icon() {
    let info = make_info_text();
    assert!(info
        .contains("<key>CFBundleIdentifier</key>\n    <string>com.tetron.systray</string>\n"));
    assert!(info.contains("<key>LSUIElement</key>\n    <true/>\n"));
}

#[test]
fn the_installed_port_is_the_one_that_the_tray_opens() {
    for port in [0u16, 1, 80, 7870, 8080, 65535] {
        let text = written(&install(Platform::Linux, port, running(), files()).unwrap());
        let line = text.lines().nth(1).unwrap();
        let value = line.strip_prefix("Environment=TETRON_WEBUI_PORT=").unwrap().to_string();
        let env = Environment { vars: vec![("TETRON_WEBUI_PORT".to_string(), value)] };
        assert_eq!(webui_url(&env), format!("http://127.0.0.1:{port}"));
    }
}

#[test]
fn nothing_is_done_where_something_is_not_known() {
    for p in [Platform::Linux, Platform::MacOs] {
        assert_eq!(install(p, 1, Err(no()), files()), Err(no()));
        assert_eq!(install(p, 1, running(), Err(no())), Err(no()));
        assert_eq!(install(p, 1, Err(no()), Err("second".to_string())), Err(no()));
        assert_eq!(uninstall(p, Err(no()), true), Err(no()));
    }
    assert_eq!(install(Platform::Other, 1, Err(no()), files()), Err(no()));
}

#[test]
fn installing_elsewhere_is_refused() {
    for f in [files(), Err(no())] {
        assert_eq!(
            install(Platform::Other, 1, running(), f),
            Err("per-user service install not supported on this platform".to_string())
        );
    }
}

#[test]
fn uninstalling_on_linux() {
    assert_eq!(
        uninstall(Platform::Linux, files(), true),
        Ok(vec![
            run("systemctl", &["--user", "disable", "--now", "tetron-systray"], false),
            Effect::RemoveService,
            run("systemctl", &["--user", "daemon-reload"], false),
            say("Removed systemd --user service."),
        ])
    );
}

#[test]
fn uninstalling_on_macos() {
    let plist = files().unwrap().service;
    assert_eq!(
        uninstall(Platform::MacOs, files(), true),
        Ok(vec![
            run("launchctl", &["unload", "-w", &plist], false),
            Effect::RemoveService,
            Effect::RemoveBundle,
            say("Removed launchd LaunchAgent."),
        ])
    );
}

#[test]
fn uninstalling_what_is_not_installed() {
    for p in [Platform::Linux, Platform::MacOs] {
        assert_eq!(uninstall(p, files(), false), Ok(vec![say("Service not installed.")]));
    }
}

#[test]
fn uninstalling_elsewhere_is_refused() {
    for installed in [false, true] {
        assert_eq!(
            uninstall(Platform::Other, files(), installed),
            Err("per-user service uninstall not supported on this platform".to_string())
        );
    }
}

/// Carries out a list of effects, of which those in `failing` fail: how many
/// are carried out, and how the work ends.
fn work(effects: &[Effect], failing: &[usize]) -> (usize, Result<(), String>) {
    for (i, e) in effects.iter().enumerate() {
        let outcome = if failing.contains(&i) { Err(format!("failed {i}")) } else { Ok(()) };
        if let Err(e) = after_effect(e, outcome) {
            return (i + 1, Err(e));
        }
    }
    (effects.len(), Ok(()))
}

#[test]
fn a_failed_command_only_warns() {
    let linux = install(Platform::Linux, 1, running(), files()).unwrap();
    assert_eq!(work(&linux, &[1, 2, 3, 4]), (5, Ok(())));
    let gone = uninstall(Platform::Linux, files(), true).unwrap();
    assert_eq!(work(&gone, &[0, 2, 3]), (4, Ok(())));
    let macos = install(Platform::MacOs, 1, running(), files()).unwrap();
    assert_eq!(work(&macos, &[2, 3, 4]), (5, Ok(())));
}

#[test]
fn a_failed_write_or_removal_ends_the_work() {
    let linux = install(Platform::Linux, 1, running(), files()).unwrap();
    assert_eq!(work(&linux, &[0, 1]), (1, Err("failed 0".to_string())));
    let macos = install(Platform::MacOs, 1, running(), files()).unwrap();
    assert_eq!(work(&macos, &[0]), (1, Err("failed 0".to_string())));
    assert_eq!(work(&macos, &[1]), (2, Err("failed 1".to_string())));
    let gone = uninstall(Platform::MacOs, files(), true).unwrap();
    assert_eq!(work(&gone, &[0, 1]), (2, Err("failed 1".to_string())));
    assert_eq!(work(&gone, &[2]), (3, Err("failed 2".to_string())));
}

#[test]
fn an_installation_ends_with_the_state_of_the_service() {
    assert_eq!(
        install_outcome(true),
        Ok("tetron-systray service installed and running.".to_string())
    );
    assert_eq!(
        install_outcome(false),
        Err("service was installed but never reported active.\n\
             Check the service logs (journalctl --user -u tetron-systray on Linux, \
             or the log path in the plist on macOS)."
            .to_string())
    );
}

#[test]
fn the_files_are_where_they_are_documented_to_be() {
    let u = unit_path();
    assert_eq!((u.base, u.dir.as_str()), (Base::Config, "systemd/user"));
    assert_eq!(u.name, "tetron-systray.service");
    let p = plist_path();
    assert_eq!((p.base, p.dir.as_str()), (Base::Home, "Library/LaunchAgents"));
    assert_eq!(p.name, "com.tetron.systray.plist");
    let l = log_path();
    assert_eq!((l.base, l.dir.as_str()), (Base::Home, "Library/Logs"));
    assert_eq!(l.name, "tetron-systray.log");
    let b = bundle_path();
    assert_eq!((b.base, b.dir.as_str()), (Base::Home, "Applications"));
    assert_eq!(b.name, "TetronSystray.app");
    assert_eq!(bundle_exe(), "Contents/MacOS/tetron-systray");
    assert_eq!(bundle_info(), "Contents/Info.plist");
}

#[test]
fn failures_are_explained() {
    assert_eq!(missing_base(Base::Config), "could not determine config directory");
    assert_eq!(missing_base(Base::Home), "could not determine home directory");
    assert_eq!(program_failure(), "failed to determine current executable path");
    assert_eq!(write_failure("/a/b"), "failed to write /a/b");
    assert_eq!(run_warning("x", &RunOutcome::Success), None);
    assert_eq!(
        run_warning("x", &RunOutcome::Failed { status: "exit status: 1".to_string() }),
        Some("warning: `x` exited with exit status: 1".to_string())
    );
    assert_eq!(
        run_warning("x", &RunOutcome::NotRun { error: "gone".to_string() }),
        Some("warning: failed to run `x`: gone".to_string())
    );
}

fn answer(success: bool, stdout: &str) -> Option<QueryAnswer> {
    Some(QueryAnswer { success, stdout: stdout.to_string() })
}

#[test]
fn on_linux_the_output_tells_whether_the_service_is_active() {
    for success in [false, true] {
        assert!(is_active(Platform::Linux, &answer(success, "active\n")));
        assert!(is_active(Platform::Linux, &answer(success, "active")));
        assert!(!is_active(Platform::Linux, &answer(success, "inactive\n")));
        assert!(!is_active(Platform::Linux, &answer(success, "activating\n")));
        assert!(!is_active(Platform::Linux, &answer(success, "")));
    }
    assert!(!is_active(Platform::Linux, &None));
}

#[test]
fn on_macos_the_status_tells_whether_the_service_is_loaded() {
    assert!(is_active(Platform::MacOs, &answer(true, "")));
    assert!(!is_active(Platform::MacOs, &answer(false, "active")));
    assert!(!is_active(Platform::MacOs, &None));
    assert!(!is_active(Platform::Other, &answer(true, "active")));
}

#[test]
fn the_service_manager_is_asked_for_the_state() {
    let (program, args) = active_query(Platform::Linux).unwrap();
    assert_eq!(program, "systemctl");
    assert_eq!(args, ["--user", "is-active", "tetron-systray"]);
    let (program, args) = active_query(Platform::MacOs).unwrap();
    assert_eq!(program, "launchctl");
    assert_eq!(args, ["list", "com.tetron.systray"]);
    assert_eq!(active_query(Platform::Other), None);
}

#[test]
fn the_wait_ends_with_the_service_or_with_the_deadline() {
    let w = ActiveWait::start(Moment { nanos: 5 }, ACTIVE_TIMEOUT_SECS);
    let end = 5 + 10 * NANOS_PER_SEC;
    assert_eq!(w.deadline.nanos, end);
    let at = |nanos| Moment { nanos };
    assert_eq!(w.wait_for_active(true, at(5)), WaitStep::Done { active: true });
    assert_eq!(w.wait_for_active(false, at(5)), WaitStep::Sleep { millis: 250 });
    assert_eq!(w.wait_for_active(false, at(end - 1)), WaitStep::Sleep { millis: 250 });
    assert_eq!(w.wait_for_active(false, at(end)), WaitStep::Done { active: false });
    assert_eq!(w.wait_for_active(true, at(end + 1)), WaitStep::Done { active: true });
}

/// Runs a whole wait, with these answers at these moments.
fn wait(deadline: i128, asked: &[(bool, i128)]) -> (usize, Option<bool>) {
    let w = ActiveWait { deadline: Moment { nanos: deadline } };
    for (i, (active, nanos)) in asked.iter().enumerate() {
        if let WaitStep::Done { active } = w.wait_for_active(*active, Moment { nanos: *nanos }) {
            return (i + 1, Some(active));
        }
    }
    (asked.len(), None)
}

#[test]
fn a_whole_wait() {
    assert_eq!(wait(10, &[]), (0, None));
    assert_eq!(wait(10, &[(false, 1), (false, 9)]), (2, None));
    assert_eq!(wait(10, &[(false, 1), (true, 2), (false, 11)]), (2, Some(true)));
    assert_eq!(wait(10, &[(false, 1), (false, 10), (true, 11)]), (2, Some(false)));
    assert_eq!(wait(10, &[(true, 99)]), (1, Some(true)));
    assert_eq!(wait(0, &[(false, 0)]), (1, Some(false)));
}

#[test]
fn a_wait_starts_by_the_clock() {
    let clock = Clock::start();
    let before = clock.now().nanos;
    let w = ActiveWait::start_now(&clock, 10);
    let after = clock.now().nanos;
    assert!(before + 10 * NANOS_PER_SEC <= w.deadline.nanos);
    assert!(w.deadline.nanos <= after + 10 * NANOS_PER_SEC);
}
