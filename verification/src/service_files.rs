//! The files of the per-user service: the unit, the property list and the
//! description of the app bundle.
use crate::environment::DEFAULT_WEBUI_PORT;
use crate::text::{dec, push_dec, replace_all, replaced};
use vstd::prelude::*;

verus! {

// ---------------------------------------------------------------------------
// Filling in
// ---------------------------------------------------------------------------

/// A port as a unit sets it.
pub open spec fn unit_port(port: nat) -> Seq<char> {
    "TETRON_WEBUI_PORT="@ + dec(port)
}

/// A port as a property list sets it.
pub open spec fn plist_port(port: nat) -> Seq<char> {
    "<string>"@ + dec(port) + "</string>"@
}

/// The place of the program in the templates.
pub open spec fn template_exe() -> Seq<char> {
    "/usr/local/bin/tetron-systray"@
}

/// The unit for a program and a port: the template with its default port and
/// its default place of the program replaced.
pub open spec fn unit_text(template: Seq<char>, exe: Seq<char>, port: nat) -> Seq<char> {
    replaced(
        replaced(template, unit_port(DEFAULT_WEBUI_PORT as nat), unit_port(port)),
        template_exe(),
        exe,
    )
}

/// The property list for a program, a log and a port: the template with its
/// defaults replaced.
pub open spec fn plist_text(template: Seq<char>, exe: Seq<char>, log: Seq<char>, port: nat) -> Seq<
    char,
> {
    replaced(
        replaced(
            replaced(template, plist_port(DEFAULT_WEBUI_PORT as nat), plist_port(port)),
            template_exe(),
            exe,
        ),
        "/tmp/tetron-systray.log"@,
        log,
    )
}

fn make_unit_port(port: u16) -> (r: String)
    ensures
        r@ == unit_port(port as nat),
        r@.len() > 0,
{
    let mut out: String = "TETRON_WEBUI_PORT=".to_owned();
    proof {
        reveal_strlit("TETRON_WEBUI_PORT=");
    }
    push_dec(&mut out, port as u64);
    out
}

fn make_plist_port(port: u16) -> (r: String)
    ensures
        r@ == plist_port(port as nat),
        r@.len() > 0,
{
    let mut out: String = "<string>".to_owned();
    proof {
        reveal_strlit("<string>");
    }
    push_dec(&mut out, port as u64);
    out.append("</string>");
    out
}

/// The unit for a program and a port.
pub fn make_unit_text(template: &str, exe: &str, port: u16) -> (r: String)
    ensures
        r@ == unit_text(template@, exe@, port as nat),
{
    let with_port: String = replace_all(
        template,
        make_unit_port(DEFAULT_WEBUI_PORT).as_str(),
        make_unit_port(port).as_str(),
    );
    proof {
        reveal_strlit("/usr/local/bin/tetron-systray");
    }
    replace_all(with_port.as_str(), "/usr/local/bin/tetron-systray", exe)
}

/// The property list for a program, a log and a port.
pub fn make_plist_text(template: &str, exe: &str, log: &str, port: u16) -> (r: String)
    ensures
        r@ == plist_text(template@, exe@, log@, port as nat),
{
    let with_port: String = replace_all(
        template,
        make_plist_port(DEFAULT_WEBUI_PORT).as_str(),
        make_plist_port(port).as_str(),
    );
    proof {
        reveal_strlit("/usr/local/bin/tetron-systray");
        reveal_strlit("/tmp/tetron-systray.log");
    }
    let with_exe: String = replace_all(
        with_port.as_str(),
        "/usr/local/bin/tetron-systray",
        exe,
    );
    replace_all(with_exe.as_str(), "/tmp/tetron-systray.log", log)
}

// ---------------------------------------------------------------------------
// Templates
// ---------------------------------------------------------------------------

/// The line of the unit that has it start with the session. GNOME and KDE
/// activate `graphical-session.target`, Cinnamon and XFCE only ever activate
/// `default.target`, so it lists both.
pub open spec fn wanted_by() -> Seq<char> {
    "\nWantedBy=default.target graphical-session.target\n"@
}

/// What stands in front of the port in the unit.
pub open spec fn unit_head() -> Seq<char> {
    "[Service]\nEnvironment="@
}

/// What stands between the port and the program in the unit.
pub open spec fn unit_start() -> Seq<char> {
    "\nExecStart="@
}

/// What stands between the program and the targets in the unit.
pub open spec fn unit_middle() -> Seq<char> {
    "\nRestart=on-failure\nRestartSec=3\n# Polling cadence, in whole seconds:\n"@
        + "# Environment=TETRON_SYSTRAY_POLL_ACTIVE_SECS=3\n"@
        + "# Environment=TETRON_SYSTRAY_POLL_IDLE_SECS=300\n"@
        + "# Environment=TETRON_SYSTRAY_POLL_UNREACHABLE_SECS=30\n"@
        + "# Environment=TETRON_SYSTRAY_MENU_ACTIVE_WINDOW_SECS=20\n\n"@
        + "[Unit]\nDescription=tetron tray client\nAfter=graphical-session.target\n\n[Install]"@
}

/// The template of the unit.
pub open spec fn unit_template() -> Seq<char> {
    unit_head() + unit_port(DEFAULT_WEBUI_PORT as nat) + unit_start() + template_exe()
        + unit_middle() + wanted_by()
}

/// The template of the unit.
pub fn make_unit_template() -> (r: String)
    ensures
        r@ == unit_template(),
{
    let mut out: String = "[Service]\nEnvironment=".to_owned();
    out.append(make_unit_port(DEFAULT_WEBUI_PORT).as_str());
    out.append("\nExecStart=");
    out.append("/usr/local/bin/tetron-systray");
    out.append(
        "\nRestart=on-failure\nRestartSec=3\n# Polling cadence, in whole seconds:\n",
    );
    out.append("# Environment=TETRON_SYSTRAY_POLL_ACTIVE_SECS=3\n");
    out.append("# Environment=TETRON_SYSTRAY_POLL_IDLE_SECS=300\n");
    out.append("# Environment=TETRON_SYSTRAY_POLL_UNREACHABLE_SECS=30\n");
    out.append("# Environment=TETRON_SYSTRAY_MENU_ACTIVE_WINDOW_SECS=20\n\n");
    out.append(
        "[Unit]\nDescription=tetron tray client\nAfter=graphical-session.target\n\n[Install]",
    );
    out.append("\nWantedBy=default.target graphical-session.target\n");
    assert(out@ =~= unit_template());
    out
}

/// The first lines of a property list.
pub open spec fn plist_intro() -> Seq<char> {
    "<?xml version=\"1.0\" encoding=\"UTF-8\"?>\n"@
        + "<!DOCTYPE plist PUBLIC \"-//Apple//DTD PLIST 1.0//EN\" "@
        + "\"http://www.apple.com/DTDs/PropertyList-1.0.dtd\">\n"@
        + "<plist version=\"1.0\">\n<dict>\n"@
}

/// What stands in front of the port in the property list.
pub open spec fn plist_head() -> Seq<char> {
    plist_intro() + "    <key>EnvironmentVariables</key>\n    <dict>\n"@
        + "        <key>TETRON_WEBUI_PORT</key>\n        "@
}

/// What stands between the port and the program in the property list.
pub open spec fn plist_start() -> Seq<char> {
    "\n    </dict>\n    <key>Label</key>\n    <string>com.tetron.systray</string>\n"@
        + "    <key>ProgramArguments</key>\n    <array>\n        <string>"@
}

/// What stands between the program and the log in the property list.
pub open spec fn plist_middle() -> Seq<char> {
    "</string>\n    </array>\n    <key>RunAtLoad</key>\n    <true/>\n"@
        + "    <key>KeepAlive</key>\n    <dict>\n        <key>SuccessfulExit</key>\n"@
        + "        <false/>\n    </dict>\n    <key>StandardOutPath</key>\n    <string>"@
}

/// What stands between the two places of the log in the property list.
pub open spec fn plist_between() -> Seq<char> {
    "</string>\n    <key>StandardErrorPath</key>\n    <string>"@
}

/// What stands behind the log in the property list.
pub open spec fn plist_tail() -> Seq<char> {
    "</string>\n</dict>\n</plist>\n"@
}

/// The place of the log in the template.
pub open spec fn template_log() -> Seq<char> {
    "/tmp/tetron-systray.log"@
}

/// The template of the property list.
pub open spec fn plist_template() -> Seq<char> {
    plist_head() + plist_port(DEFAULT_WEBUI_PORT as nat) + plist_start() + template_exe()
        + plist_middle() + template_log() + plist_between() + template_log() + plist_tail()
}

fn make_plist_intro() -> (r: String)
    ensures
        r@ == plist_intro(),
{
    let mut out: String = "<?xml version=\"1.0\" encoding=\"UTF-8\"?>\n".to_owned();
    out.append("<!DOCTYPE plist PUBLIC \"-//Apple//DTD PLIST 1.0//EN\" ");
    out.append("\"http://www.apple.com/DTDs/PropertyList-1.0.dtd\">\n");
    out.append("<plist version=\"1.0\">\n<dict>\n");
    out
}

/// The template of the property list.
pub fn make_plist_template() -> (r: String)
    ensures
        r@ == plist_template(),
{
    let mut out: String = make_plist_intro();
    out.append("    <key>EnvironmentVariables</key>\n    <dict>\n");
    out.append("        <key>TETRON_WEBUI_PORT</key>\n        ");
    out.append(make_plist_port(DEFAULT_WEBUI_PORT).as_str());
    out.append("\n    </dict>\n    <key>Label</key>\n    <string>com.tetron.systray</string>\n");
    out.append("    <key>ProgramArguments</key>\n    <array>\n        <string>");
    out.append("/usr/local/bin/tetron-systray");
    out.append("</string>\n    </array>\n    <key>RunAtLoad</key>\n    <true/>\n");
    out.append("    <key>KeepAlive</key>\n    <dict>\n        <key>SuccessfulExit</key>\n");
    out.append("        <false/>\n    </dict>\n    <key>StandardOutPath</key>\n    <string>");
    out.append("/tmp/tetron-systray.log");
    out.append("</string>\n    <key>StandardErrorPath</key>\n    <string>");
    out.append("/tmp/tetron-systray.log");
    out.append("</string>\n</dict>\n</plist>\n");
    assert(out@ =~= plist_template());
    out
}

/// The entry that gives the app bundle its identifier.
pub open spec fn info_identifier() -> Seq<char> {
    "    <key>CFBundleIdentifier</key>\n    <string>com.tetron.systray</string>\n"@
}

/// The entry that makes the app bundle a program of the menu bar only.
pub open spec fn info_ui_element() -> Seq<char> {
    "    <key>LSUIElement</key>\n    <true/>\n"@
}

/// The description of the app bundle. Without an identifier and `LSUIElement`
/// the status item never shows up in the menu bar.
pub open spec fn info_text() -> Seq<char> {
    plist_intro() + info_identifier()
        + "    <key>CFBundleName</key>\n    <string>TetronSystray</string>\n"@
        + "    <key>CFBundleExecutable</key>\n    <string>tetron-systray</string>\n"@
        + "    <key>CFBundlePackageType</key>\n    <string>APPL</string>\n"@
        + info_ui_element() + "</dict>\n</plist>\n"@
}

/// The description of the app bundle.
pub fn make_info_text() -> (r: String)
    ensures
        r@ == info_text(),
{
    let mut out: String = make_plist_intro();
    out.append(
        "    <key>CFBundleIdentifier</key>\n    <string>com.tetron.systray</string>\n",
    );
    out.append("    <key>CFBundleName</key>\n    <string>TetronSystray</string>\n");
    out.append("    <key>CFBundleExecutable</key>\n    <string>tetron-systray</string>\n");
    out.append("    <key>CFBundlePackageType</key>\n    <string>APPL</string>\n");
    out.append("    <key>LSUIElement</key>\n    <true/>\n");
    out.append("</dict>\n</plist>\n");
    out
}

} // verus!
