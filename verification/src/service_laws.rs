//! Laws of the per-user service.
use crate::environment::{Platform, DEFAULT_WEBUI_PORT};
use crate::poll::Moment;
use crate::service::{
    came_out, command, effect_views, ended, exe_of, files_found, found, going_on, install_effects,
    install_plan, must_succeed, planned, says_active, service_text, state_query, uninstall_effects,
    uninstall_plan, wait_step, warning, Effect, EffectView, FilesView, RunOutcome, ServiceFiles,
    WaitStep,
};
use crate::service_files::{
    info_identifier, info_text, info_ui_element, plist_between, plist_head, plist_intro,
    plist_middle, plist_port, plist_start, plist_tail, plist_template, plist_text, template_exe,
    template_log, unit_head, unit_middle, unit_port, unit_start, unit_template, unit_text,
    wanted_by,
};
use crate::text::{dec, lemma_dec_value, replaced, views};
use crate::text_laws::{
    blank, law_trimming_leaves_the_rest, law_trimming_takes_white_space, tight,
};
use vstd::prelude::*;

verus! {

// ---------------------------------------------------------------------------
// Replacing
// ---------------------------------------------------------------------------

/// `from` occurs in `s` at position `j`.
pub open spec fn occurs_at(s: Seq<char>, from: Seq<char>, j: int) -> bool {
    &&& 0 <= j
    &&& j + from.len() <= s.len()
    &&& s.subrange(j, j + from.len()) == from
}

/// No occurrence of `from` starts in the first `n` characters of `s`.
pub open spec fn none_before(s: Seq<char>, from: Seq<char>, n: nat) -> bool {
    forall|j: int| 0 <= j < n ==> !#[trigger] occurs_at(s, from, j)
}

/// Replacing the first occurrence leaves what stands before it as it is.
proof fn lemma_replaced_first(a: Seq<char>, from: Seq<char>, b: Seq<char>, to: Seq<char>)
    requires
        from.len() > 0,
        none_before(a + from + b, from, a.len()),
    ensures
        replaced(a + from + b, from, to) == a + to + replaced(b, from, to),
    decreases a.len(),
{
    let s = a + from + b;
    if a.len() == 0 {
        assert(s.take(from.len() as int) == from);
        assert(s.skip(from.len() as int) == b);
        assert(a + to + replaced(b, from, to) == to + replaced(b, from, to));
    } else {
        let t = a.skip(1) + from + b;
        assert(s.skip(1) == t);
        assert(!occurs_at(s, from, 0));
        assert(s.subrange(0, from.len() as int) == s.take(from.len() as int));
        assert forall|j: int| 0 <= j < a.skip(1).len() implies !#[trigger] occurs_at(
            t,
            from,
            j,
        ) by {
            assert(!occurs_at(s, from, j + 1));
            if occurs_at(t, from, j) {
                assert(s.subrange(j + 1, j + 1 + from.len()) == t.subrange(j, j + from.len()));
            }
        }
        lemma_replaced_first(a.skip(1), from, b, to);
        assert(seq![s[0]] + (a.skip(1) + to + replaced(b, from, to)) == a + to + replaced(
            b,
            from,
            to,
        ));
    }
}

/// Where there is no occurrence, nothing is replaced.
proof fn lemma_replaced_absent(s: Seq<char>, from: Seq<char>, to: Seq<char>)
    requires
        none_before(s, from, s.len()),
    ensures
        replaced(s, from, to) == s,
    decreases s.len(),
{
    if from.len() > 0 && s.len() >= from.len() {
        let t = s.skip(1);
        assert(!occurs_at(s, from, 0));
        assert(s.subrange(0, from.len() as int) == s.take(from.len() as int));
        assert forall|j: int| 0 <= j < t.len() implies !#[trigger] occurs_at(t, from, j) by {
            assert(!occurs_at(s, from, j + 1));
            if occurs_at(t, from, j) {
                assert(s.subrange(j + 1, j + 1 + from.len()) == t.subrange(j, j + from.len()));
            }
        }
        lemma_replaced_absent(t, from, to);
        assert(seq![s[0]] + t == s);
    }
}

/// Every `x` in `s` is followed there by something else than `y`.
spec fn safe(s: Seq<char>, x: char, y: char) -> bool {
    forall|k: int| 0 <= k < s.len() && #[trigger] s[k] == x ==> k + 1 < s.len() && s[k + 1] != y
}

proof fn lemma_safe_concat(a: Seq<char>, b: Seq<char>, x: char, y: char)
    requires
        safe(a, x, y),
        safe(b, x, y),
    ensures
        safe(a + b, x, y),
{
    let s = a + b;
    assert forall|k: int| 0 <= k < s.len() && #[trigger] s[k] == x implies k + 1 < s.len() && s[k
        + 1] != y by {
        if k < a.len() {
            assert(a[k] == x);
        } else {
            assert(b[k - a.len()] == x);
        }
    }
}

/// No occurrence of a text that starts with `x` and `y` starts in a safe one.
proof fn lemma_none_in_safe(a: Seq<char>, b: Seq<char>, from: Seq<char>)
    requires
        from.len() > 1,
        safe(a, from[0], from[1]),
    ensures
        none_before(a + b, from, a.len()),
{
    let s = a + b;
    assert forall|j: int| 0 <= j < a.len() implies !#[trigger] occurs_at(s, from, j) by {
        if occurs_at(s, from, j) {
            let t = s.subrange(j, j + from.len());
            assert(t[0] == s[j] && t[1] == s[j + 1]);
            assert(a[j] == from[0]);
        }
    }
}

/// No occurrence of a text starts where the character that it has at `d`, and
/// not before, comes too late.
proof fn lemma_none_without_char(a: Seq<char>, from: Seq<char>, b: Seq<char>, d: int)
    requires
        0 <= d < from.len(),
        !a.contains(from[d]),
        !from.take(d).contains(from[d]),
    ensures
        none_before(a + from + b, from, a.len()),
{
    let s = a + from + b;
    assert forall|j: int| 0 <= j < a.len() implies !#[trigger] occurs_at(s, from, j) by {
        if occurs_at(s, from, j) {
            assert(s.subrange(j, j + from.len())[d] == s[j + d]);
            if j + d < a.len() {
                assert(a[j + d] == from[d]);
            } else {
                assert(from.take(d)[j + d - a.len()] == from[d]);
            }
        }
    }
}

/// No text occurs where one of its characters does not.
proof fn lemma_none_without(s: Seq<char>, from: Seq<char>, d: int)
    requires
        0 <= d < from.len(),
        !s.contains(from[d]),
    ensures
        none_before(s, from, s.len()),
{
    assert forall|j: int| 0 <= j < s.len() implies !#[trigger] occurs_at(s, from, j) by {
        if occurs_at(s, from, j) {
            assert(s.subrange(j, j + from.len())[d] == s[j + d]);
        }
    }
}

proof fn lemma_lacks_concat(a: Seq<char>, b: Seq<char>, c: char)
    requires
        !a.contains(c),
        !b.contains(c),
    ensures
        !(a + b).contains(c),
{
    if (a + b).contains(c) {
        let i = choose|i: int| 0 <= i < (a + b).len() && (a + b)[i] == c;
        if i < a.len() {
            assert(a[i] == c);
        } else {
            assert(b[i - a.len()] == c);
        }
    }
}

proof fn lemma_dec_lacks(n: nat, c: char)
    requires
        !('0' <= c && c <= '9'),
    ensures
        !dec(n).contains(c),
{
    lemma_dec_value(n);
}

/// No occurrence of `from` can touch `u`, whatever stands around it.
spec fn apart(u: Seq<char>, from: Seq<char>) -> bool {
    &&& from.len() > 1
    &&& u.len() > 0
    &&& !from.contains(u[0])
    &&& safe(u, from[0], from[1])
}

proof fn lemma_replaced_after(u: Seq<char>, k: int, b: Seq<char>, from: Seq<char>, to: Seq<char>)
    requires
        apart(u, from),
        0 <= k <= u.len(),
    ensures
        replaced(u.skip(k) + b, from, to) == u.skip(k) + replaced(b, from, to),
    decreases u.len() - k,
{
    let s = u.skip(k) + b;
    if k == u.len() {
        assert(s == b);
        assert(u.skip(k) + replaced(b, from, to) == replaced(b, from, to));
    } else if s.len() < from.len() {
        assert(replaced(b, from, to) == b);
    } else {
        assert(s[0] == u[k]);
        if s.take(from.len() as int) == from {
            assert(s.take(from.len() as int)[0] == from[0]);
            assert(s.take(from.len() as int)[1] == from[1]);
            assert(s[1] == u[k + 1]);
        }
        assert(s.skip(1) == u.skip(k + 1) + b);
        lemma_replaced_after(u, k + 1, b, from, to);
        assert(seq![s[0]] + (u.skip(k + 1) + replaced(b, from, to)) == u.skip(k) + replaced(
            b,
            from,
            to,
        ));
    }
}

/// What no occurrence can touch stays, and parts the text in two.
proof fn lemma_replaced_around(
    a: Seq<char>,
    u: Seq<char>,
    b: Seq<char>,
    from: Seq<char>,
    to: Seq<char>,
)
    requires
        apart(u, from),
    ensures
        replaced(a + u + b, from, to) == replaced(a, from, to) + u + replaced(b, from, to),
    decreases a.len(),
{
    let s = a + u + b;
    let n = from.len() as int;
    let rest = replaced(b, from, to);
    if a.len() == 0 {
        lemma_replaced_after(u, 0, b, from, to);
        assert(u.skip(0) == u);
        assert(s == u + b);
        assert(replaced(a, from, to) == a);
        assert(a + u + rest == u + rest);
    } else if s.len() < n {
        assert(rest == b);
    } else if a.len() < n {
        if s.take(n) == from {
            assert(s[a.len() as int] == u[0]);
            assert(from[a.len() as int] == u[0]);
        }
        assert(s.skip(1) == a.skip(1) + u + b);
        lemma_replaced_around(a.skip(1), u, b, from, to);
        assert(replaced(a.skip(1), from, to) == a.skip(1));
        assert(seq![s[0]] + (a.skip(1) + u + rest) == a + u + rest);
    } else {
        assert(s.take(n) == a.take(n));
        if s.take(n) == from {
            let tail = replaced(a.skip(n), from, to);
            assert(s.skip(n) == a.skip(n) + u + b);
            lemma_replaced_around(a.skip(n), u, b, from, to);
            assert(to + (tail + u + rest) == (to + tail) + u + rest);
        } else {
            let tail = replaced(a.skip(1), from, to);
            assert(s.skip(1) == a.skip(1) + u + b);
            lemma_replaced_around(a.skip(1), u, b, from, to);
            assert(seq![s[0]] + (tail + u + rest) == (seq![s[0]] + tail) + u + rest);
        }
    }
}

// ---------------------------------------------------------------------------
// The unit
// ---------------------------------------------------------------------------

proof fn lemma_unit_head_lacks()
    ensures
        !unit_head().contains('T'),
        !unit_head().contains('/'),
        !unit_start().contains('7'),
        !unit_start().contains('/'),
{
    reveal_strlit("[Service]\nEnvironment=");
    reveal_strlit("\nExecStart=");
}

proof fn lemma_unit_port_lacks(port: nat)
    ensures
        unit_port(port)[0] == 'T',
        unit_port(port).len() > 0,
        !unit_port(port).contains('/'),
        unit_port(7870)[18] == '7',
        unit_port(7870).len() == 22,
{
    reveal_strlit("TETRON_WEBUI_PORT=");
    lemma_dec_value(port);
    lemma_dec_lacks(port, '/');
    lemma_lacks_concat("TETRON_WEBUI_PORT="@, dec(port), '/');
    lemma_default_port();
}

proof fn lemma_default_port()
    ensures
        dec(7870) == seq!['7', '8', '7', '0'],
{
    reveal_with_fuel(dec, 4);
    assert(dec(7870) =~= seq!['7', '8', '7', '0']);
}

proof fn lemma_exe_lacks()
    ensures
        template_exe().len() == 29,
        template_exe()[0] == '/',
        template_exe()[1] == 'u',
        !template_exe().contains('7'),
{
    reveal_strlit("/usr/local/bin/tetron-systray");
}

proof fn lemma_unit_rest_lacks()
    ensures
        !(unit_middle() + wanted_by()).contains('7'),
        !(unit_middle() + wanted_by()).contains('/'),
{
    reveal_strlit("\nRestart=on-failure\nRestartSec=3\n# Polling cadence, in whole seconds:\n");
    reveal_strlit("# Environment=TETRON_SYSTRAY_POLL_ACTIVE_SECS=3\n");
    reveal_strlit("# Environment=TETRON_SYSTRAY_POLL_IDLE_SECS=300\n");
    reveal_strlit("# Environment=TETRON_SYSTRAY_POLL_UNREACHABLE_SECS=30\n");
    reveal_strlit("# Environment=TETRON_SYSTRAY_MENU_ACTIVE_WINDOW_SECS=20\n\n");
    reveal_strlit(
        "[Unit]\nDescription=tetron tray client\nAfter=graphical-session.target\n\n[Install]",
    );
    reveal_strlit("\nWantedBy=default.target graphical-session.target\n");
    let a = "\nRestart=on-failure\nRestartSec=3\n# Polling cadence, in whole seconds:\n"@;
    let b = "# Environment=TETRON_SYSTRAY_POLL_ACTIVE_SECS=3\n"@;
    let c = "# Environment=TETRON_SYSTRAY_POLL_IDLE_SECS=300\n"@;
    let d = "# Environment=TETRON_SYSTRAY_POLL_UNREACHABLE_SECS=30\n"@;
    let e = "# Environment=TETRON_SYSTRAY_MENU_ACTIVE_WINDOW_SECS=20\n\n"@;
    let f =
        "[Unit]\nDescription=tetron tray client\nAfter=graphical-session.target\n\n[Install]"@;
    assert forall|x: char| x == '7' || x == '/' implies !#[trigger] (unit_middle()
        + wanted_by()).contains(x) by {
        lemma_lacks_concat(a, b, x);
        lemma_lacks_concat(a + b, c, x);
        lemma_lacks_concat(a + b + c, d, x);
        lemma_lacks_concat(a + b + c + d, e, x);
        lemma_lacks_concat(a + b + c + d + e, f, x);
        lemma_lacks_concat(unit_middle(), wanted_by(), x);
    }
}

/// The unit that an installation writes sets the port and runs the program that
/// it is made for, and lists both targets.
pub proof fn law_unit_file(exe: Seq<char>, port: nat)
    ensures
        unit_text(unit_template(), exe, port) == unit_head() + unit_port(port) + unit_start() + exe
            + unit_middle() + wanted_by(),
{
    let p = unit_port(DEFAULT_WEBUI_PORT as nat);
    let q = unit_port(port);
    let e = template_exe();
    let end = unit_middle() + wanted_by();
    let rest = unit_start() + e + end;
    lemma_unit_head_lacks();
    lemma_unit_port_lacks(port);
    lemma_unit_port_lacks(DEFAULT_WEBUI_PORT as nat);
    lemma_exe_lacks();
    lemma_unit_rest_lacks();

    assert(unit_template() =~= unit_head() + p + rest);
    lemma_none_without_char(unit_head(), p, rest, 0);
    lemma_replaced_first(unit_head(), p, rest, q);
    lemma_lacks_concat(unit_start(), e, '7');
    lemma_lacks_concat(unit_start() + e, end, '7');
    lemma_none_without(rest, p, 18);
    lemma_replaced_absent(rest, p, q);

    let front = unit_head() + q + unit_start();
    assert(unit_head() + q + rest =~= front + e + end);
    lemma_lacks_concat(unit_head(), q, '/');
    lemma_lacks_concat(unit_head() + q, unit_start(), '/');
    lemma_none_without_char(front, e, end, 0);
    lemma_replaced_first(front, e, end, exe);
    lemma_none_without(end, e, 0);
    lemma_replaced_absent(end, e, exe);
    assert(front + exe + end =~= unit_head() + q + unit_start() + exe + unit_middle()
        + wanted_by());
}

// ---------------------------------------------------------------------------
// The property list
// ---------------------------------------------------------------------------

proof fn lemma_intro_safe(y: char)
    requires
        y == 'u' || y == 't',
    ensures
        safe(plist_intro(), '/', y),
        !plist_intro().contains('7'),
{
    let a = "<?xml version=\"1.0\" encoding=\"UTF-8\"?>\n"@;
    let b = "<!DOCTYPE plist PUBLIC \"-//Apple//DTD PLIST 1.0//EN\" "@;
    let c = "\"http://www.apple.com/DTDs/PropertyList-1.0.dtd\">\n"@;
    let d = "<plist version=\"1.0\">\n<dict>\n"@;
    reveal_strlit("<?xml version=\"1.0\" encoding=\"UTF-8\"?>\n");
    reveal_strlit("<!DOCTYPE plist PUBLIC \"-//Apple//DTD PLIST 1.0//EN\" ");
    reveal_strlit("\"http://www.apple.com/DTDs/PropertyList-1.0.dtd\">\n");
    reveal_strlit("<plist version=\"1.0\">\n<dict>\n");
    lemma_safe_concat(a, b, '/', y);
    lemma_safe_concat(a + b, c, '/', y);
    lemma_safe_concat(a + b + c, d, '/', y);
    lemma_lacks_concat(a, b, '7');
    lemma_lacks_concat(a + b, c, '7');
    lemma_lacks_concat(a + b + c, d, '7');
}

proof fn lemma_head_safe(y: char)
    requires
        y == 'u' || y == 't',
    ensures
        safe(plist_head(), '/', y),
        !plist_head().contains('7'),
{
    let a = "    <key>EnvironmentVariables</key>\n    <dict>\n"@;
    let b = "        <key>TETRON_WEBUI_PORT</key>\n        "@;
    reveal_strlit("    <key>EnvironmentVariables</key>\n    <dict>\n");
    reveal_strlit("        <key>TETRON_WEBUI_PORT</key>\n        ");
    lemma_intro_safe(y);
    lemma_safe_concat(plist_intro(), a, '/', y);
    lemma_safe_concat(plist_intro() + a, b, '/', y);
    lemma_lacks_concat(plist_intro(), a, '7');
    lemma_lacks_concat(plist_intro() + a, b, '7');
}

proof fn lemma_start_safe(y: char)
    requires
        y == 'u' || y == 't',
    ensures
        plist_start().len() > 0,
        plist_start()[0] == '\n',
        safe(plist_start(), '/', y),
        !plist_start().contains('7'),
{
    let a = "\n    </dict>\n    <key>Label</key>\n    <string>com.tetron.systray</string>\n"@;
    let b = "    <key>ProgramArguments</key>\n    <array>\n        <string>"@;
    reveal_strlit(
        "\n    </dict>\n    <key>Label</key>\n    <string>com.tetron.systray</string>\n",
    );
    reveal_strlit("    <key>ProgramArguments</key>\n    <array>\n        <string>");
    lemma_safe_concat(a, b, '/', y);
    lemma_lacks_concat(a, b, '7');
}

proof fn lemma_middle_safe(y: char)
    requires
        y == 'u' || y == 't',
    ensures
        plist_middle().len() > 0,
        plist_middle()[0] == '<',
        safe(plist_middle(), '/', y),
        !plist_middle().contains('7'),
{
    let a = "</string>\n    </array>\n    <key>RunAtLoad</key>\n    <true/>\n"@;
    let b = "    <key>KeepAlive</key>\n    <dict>\n        <key>SuccessfulExit</key>\n"@;
    let c = "        <false/>\n    </dict>\n    <key>StandardOutPath</key>\n    <string>"@;
    reveal_strlit("</string>\n    </array>\n    <key>RunAtLoad</key>\n    <true/>\n");
    reveal_strlit("    <key>KeepAlive</key>\n    <dict>\n        <key>SuccessfulExit</key>\n");
    reveal_strlit("        <false/>\n    </dict>\n    <key>StandardOutPath</key>\n    <string>");
    lemma_safe_concat(a, b, '/', y);
    lemma_safe_concat(a + b, c, '/', y);
    lemma_lacks_concat(a, b, '7');
    lemma_lacks_concat(a + b, c, '7');
}

proof fn lemma_end_safe(y: char)
    requires
        y == 'u' || y == 't',
    ensures
        safe(plist_between(), '/', y),
        safe(plist_tail(), '/', y),
        !plist_between().contains('7'),
        !plist_tail().contains('7'),
{
    reveal_strlit("</string>\n    <key>StandardErrorPath</key>\n    <string>");
    reveal_strlit("</string>\n</dict>\n</plist>\n");
}

proof fn lemma_log_safe()
    ensures
        template_log().len() == 23,
        template_log()[0] == '/',
        template_log()[1] == 't',
        safe(template_log(), '/', 'u'),
        !template_log().contains('7'),
        !template_log().contains('\n'),
        !template_log().contains('<'),
{
    reveal_strlit("/tmp/tetron-systray.log");
}

proof fn lemma_plist_port_safe(port: nat, y: char)
    requires
        y == 'u' || y == 't',
    ensures
        safe(plist_port(port), '/', y),
        plist_port(7870).len() == 21,
        plist_port(7870)[8] == '7',
        !plist_port(7870).take(8).contains('7'),
{
    reveal_strlit("<string>");
    reveal_strlit("</string>");
    lemma_dec_value(port);
    lemma_dec_lacks(port, '/');
    lemma_safe_concat("<string>"@, dec(port), '/', y);
    lemma_safe_concat("<string>"@ + dec(port), "</string>"@, '/', y);
    lemma_default_port();
    assert(plist_port(7870).take(8) =~= "<string>"@);
}

/// The property list that an installation writes sets the port and runs the
/// program that it is made for, and names the log twice. (Where the path of the
/// program holds the place that the log has in the template, it is replaced
/// there too.)
pub proof fn law_plist_file(exe: Seq<char>, log: Seq<char>, port: nat)
    ensures
        plist_text(plist_template(), exe, log, port) == plist_head() + plist_port(port)
            + plist_start() + replaced(exe, template_log(), log) + plist_middle() + log
            + plist_between() + log + plist_tail(),
{
    let p = plist_port(DEFAULT_WEBUI_PORT as nat);
    let q = plist_port(port);
    let e = template_exe();
    let l = template_log();
    let end = plist_between() + l + plist_tail();
    let logs = l + end;
    let after_exe = plist_middle() + logs;
    let rest = plist_start() + e + after_exe;
    lemma_exe_lacks();
    lemma_log_safe();
    lemma_head_safe('u');
    lemma_start_safe('u');
    lemma_middle_safe('u');
    lemma_end_safe('u');
    lemma_plist_port_safe(port, 'u');

    // The port.
    assert(plist_template() =~= plist_head() + p + rest);
    lemma_none_without_char(plist_head(), p, rest, 8);
    lemma_replaced_first(plist_head(), p, rest, q);
    lemma_lacks_concat(plist_between(), l, '7');
    lemma_lacks_concat(plist_between() + l, plist_tail(), '7');
    lemma_lacks_concat(l, end, '7');
    lemma_lacks_concat(plist_middle(), logs, '7');
    lemma_lacks_concat(plist_start(), e, '7');
    lemma_lacks_concat(plist_start() + e, after_exe, '7');
    lemma_none_without(rest, p, 8);
    lemma_replaced_absent(rest, p, q);

    // The program.
    let front = plist_head() + q + plist_start();
    assert(plist_head() + q + rest =~= front + e + after_exe);
    lemma_safe_concat(plist_head(), q, '/', 'u');
    lemma_safe_concat(plist_head() + q, plist_start(), '/', 'u');
    lemma_none_in_safe(front, e + after_exe, e);
    assert(front + (e + after_exe) =~= front + e + after_exe);
    lemma_replaced_first(front, e, after_exe, exe);
    lemma_safe_concat(plist_between(), l, '/', 'u');
    lemma_safe_concat(plist_between() + l, plist_tail(), '/', 'u');
    lemma_safe_concat(l, end, '/', 'u');
    lemma_safe_concat(plist_middle(), logs, '/', 'u');
    lemma_none_in_safe(after_exe, Seq::empty(), e);
    assert(after_exe + Seq::<char>::empty() =~= after_exe);
    lemma_replaced_absent(after_exe, e, exe);

    // The log.
    lemma_plist_logs(log);
    lemma_head_safe('t');
    lemma_start_safe('t');
    lemma_middle_safe('t');
    lemma_plist_port_safe(port, 't');
    let hq = plist_head() + q;
    assert(front + exe + after_exe =~= (hq + plist_start() + exe) + plist_middle() + logs);
    lemma_replaced_around(hq + plist_start() + exe, plist_middle(), logs, l, log);
    lemma_replaced_around(hq, plist_start(), exe, l, log);
    lemma_safe_concat(plist_head(), q, '/', 't');
    lemma_none_in_safe(hq, Seq::empty(), l);
    assert(hq + Seq::<char>::empty() =~= hq);
    lemma_replaced_absent(hq, l, log);
    assert(hq + plist_start() + replaced(exe, l, log) + plist_middle() + (log + plist_between()
        + log + plist_tail()) =~= plist_head() + q + plist_start() + replaced(exe, l, log)
        + plist_middle() + log + plist_between() + log + plist_tail());
}

proof fn lemma_plist_logs(log: Seq<char>)
    ensures
        replaced(
            template_log() + (plist_between() + template_log() + plist_tail()),
            template_log(),
            log,
        ) == log + plist_between() + log + plist_tail(),
{
    let l = template_log();
    let none = Seq::<char>::empty();
    let end = plist_between() + l + plist_tail();
    lemma_log_safe();
    lemma_end_safe('t');
    lemma_none_in_safe(none, l + end, l);
    assert(none + l + end =~= l + end);
    assert(none + (l + end) =~= l + end);
    lemma_replaced_first(none, l, end, log);
    assert(none + log + replaced(end, l, log) =~= log + replaced(end, l, log));
    lemma_none_in_safe(plist_between(), l + plist_tail(), l);
    assert(plist_between() + (l + plist_tail()) =~= end);
    lemma_replaced_first(plist_between(), l, plist_tail(), log);
    lemma_none_in_safe(plist_tail(), none, l);
    assert(plist_tail() + none =~= plist_tail());
    lemma_replaced_absent(plist_tail(), l, log);
    assert(log + (plist_between() + log + plist_tail()) =~= log + plist_between() + log
        + plist_tail());
}

// ---------------------------------------------------------------------------
// What the files hold
// ---------------------------------------------------------------------------

/// `part` occurs in `s`.
pub open spec fn mentions(s: Seq<char>, part: Seq<char>) -> bool {
    exists|j: int| #[trigger] occurs_at(s, part, j)
}

proof fn lemma_mentions(a: Seq<char>, part: Seq<char>, b: Seq<char>)
    ensures
        mentions(a + part + b, part),
{
    let s = a + part + b;
    assert(s.subrange(a.len() as int, (a.len() + part.len()) as int) =~= part);
    assert(occurs_at(s, part, a.len() as int));
}

/// The unit sets the port that it is installed with, runs the program, and
/// starts with the session on every desktop, whatever the program is called.
pub proof fn law_unit_holds_what_it_must(exe: Seq<char>, port: nat)
    ensures
        mentions(unit_text(unit_template(), exe, port), "Environment="@ + unit_port(port)),
        mentions(unit_text(unit_template(), exe, port), unit_start() + exe),
        mentions(unit_text(unit_template(), exe, port), wanted_by()),
{
    law_unit_file(exe, port);
    let text = unit_text(unit_template(), exe, port);
    let end = unit_middle() + wanted_by();
    reveal_strlit("[Service]\nEnvironment=");
    reveal_strlit("Environment=");
    reveal_strlit("[Service]\n");
    assert(unit_head() =~= "[Service]\n"@ + "Environment="@);
    lemma_mentions("[Service]\n"@, "Environment="@ + unit_port(port), unit_start() + exe + end);
    assert("[Service]\n"@ + ("Environment="@ + unit_port(port)) + (unit_start() + exe + end)
        =~= text);
    lemma_mentions(unit_head() + unit_port(port), unit_start() + exe, end);
    assert(unit_head() + unit_port(port) + (unit_start() + exe) + end =~= text);
    let front = unit_head() + unit_port(port) + unit_start() + exe + unit_middle();
    lemma_mentions(front, wanted_by(), Seq::empty());
    assert(front + wanted_by() + Seq::<char>::empty() =~= text);
}

/// The property list sets the port that it is installed with.
pub proof fn law_plist_holds_port(exe: Seq<char>, log: Seq<char>, port: nat)
    ensures
        mentions(
            plist_text(plist_template(), exe, log, port),
            "<key>TETRON_WEBUI_PORT</key>\n        "@ + plist_port(port),
        ),
{
    law_plist_file(exe, log, port);
    let key = "<key>TETRON_WEBUI_PORT</key>\n        "@;
    let a = plist_intro() + "    <key>EnvironmentVariables</key>\n    <dict>\n"@;
    reveal_strlit("        <key>TETRON_WEBUI_PORT</key>\n        ");
    reveal_strlit("<key>TETRON_WEBUI_PORT</key>\n        ");
    reveal_strlit("        ");
    assert("        <key>TETRON_WEBUI_PORT</key>\n        "@ =~= "        "@ + key);
    let b = plist_start() + replaced(exe, template_log(), log) + plist_middle() + log
        + plist_between() + log + plist_tail();
    lemma_mentions(a + "        "@, key + plist_port(port), b);
    assert(a + "        "@ + (key + plist_port(port)) + b =~= plist_text(
        plist_template(),
        exe,
        log,
        port,
    ));
}

/// The description of the app bundle gives it an identifier and makes it a
/// program of the menu bar.
pub proof fn law_bundle_shows_in_menu_bar()
    ensures
        mentions(info_text(), info_identifier()),
        mentions(info_text(), info_ui_element()),
{
    let names = "    <key>CFBundleName</key>\n    <string>TetronSystray</string>\n"@
        + "    <key>CFBundleExecutable</key>\n    <string>tetron-systray</string>\n"@
        + "    <key>CFBundlePackageType</key>\n    <string>APPL</string>\n"@;
    let tail = "</dict>\n</plist>\n"@;
    lemma_mentions(plist_intro(), info_identifier(), names + info_ui_element() + tail);
    assert(plist_intro() + info_identifier() + (names + info_ui_element() + tail)
        =~= info_text());
    lemma_mentions(plist_intro() + info_identifier() + names, info_ui_element(), tail);
    assert(plist_intro() + info_identifier() + names + info_ui_element() + tail =~= info_text());
}

// ---------------------------------------------------------------------------
// Carrying out the effects
// ---------------------------------------------------------------------------

/// How the work ends, if each effect comes out in this way when it is carried
/// out: with the first error that ends it, or well.
pub open spec fn work_result(
    effects: Seq<EffectView>,
    outcomes: Seq<Result<(), Seq<char>>>,
) -> Result<(), Seq<char>>
    decreases effects.len(),
{
    if effects.len() == 0 {
        Ok(())
    } else {
        match going_on(effects[0], outcomes[0]) {
            Err(e) => Err(e),
            Ok(_) => work_result(effects.skip(1), outcomes.skip(1)),
        }
    }
}

/// How many of the effects are carried out, the one that ends the work
/// included.
pub open spec fn carried_out(
    effects: Seq<EffectView>,
    outcomes: Seq<Result<(), Seq<char>>>,
) -> nat
    decreases effects.len(),
{
    if effects.len() == 0 {
        0
    } else if going_on(effects[0], outcomes[0]) is Err {
        1
    } else {
        1 + carried_out(effects.skip(1), outcomes.skip(1))
    }
}

/// The work ends well exactly when everything that had to succeed did, and then
/// all of it was carried out. Otherwise it ends with the error of the first
/// thing that had to succeed and failed, and nothing is carried out after that.
pub proof fn law_work_result(effects: Seq<EffectView>, outcomes: Seq<Result<(), Seq<char>>>)
    requires
        outcomes.len() == effects.len(),
    ensures
        carried_out(effects, outcomes) <= effects.len(),
        work_result(effects, outcomes) is Ok <==> forall|i: int|
            0 <= i < effects.len() && must_succeed(#[trigger] effects[i]) ==> outcomes[i] is Ok,
        work_result(effects, outcomes) is Ok ==> carried_out(effects, outcomes) == effects.len(),
        work_result(effects, outcomes) is Err ==> ({
            let k = carried_out(effects, outcomes) - 1;
            &&& 0 <= k < effects.len()
            &&& must_succeed(effects[k])
            &&& outcomes[k] == work_result(effects, outcomes)
            &&& forall|i: int|
                0 <= i < k && must_succeed(#[trigger] effects[i]) ==> outcomes[i] is Ok
        }),
    decreases effects.len(),
{
    if effects.len() > 0 {
        let es = effects.skip(1);
        let os = outcomes.skip(1);
        law_work_result(es, os);
        assert forall|i: int| 1 <= i < effects.len() implies #[trigger] effects[i] == es[i - 1]
            && outcomes[i] == os[i - 1] by {}
        assert forall|i: int| 0 <= i < es.len() implies #[trigger] es[i] == effects[i + 1]
            && os[i] == outcomes[i + 1] by {}
    }
}

/// A command that fails, or cannot be run, only gives a warning: how the
/// commands come out changes neither what is carried out nor how the work ends.
pub proof fn law_failed_command_only_warns(
    effects: Seq<EffectView>,
    a: Seq<Result<(), Seq<char>>>,
    b: Seq<Result<(), Seq<char>>>,
)
    requires
        a.len() == effects.len(),
        b.len() == effects.len(),
        forall|i: int| 0 <= i < effects.len() && !(#[trigger] effects[i] is Run) ==> a[i] == b[i],
    ensures
        work_result(effects, a) == work_result(effects, b),
        carried_out(effects, a) == carried_out(effects, b),
    decreases effects.len(),
{
    if effects.len() > 0 {
        let es = effects.skip(1);
        assert forall|i: int| 0 <= i < es.len() && !(#[trigger] es[i] is Run) implies a.skip(1)[i]
            == b.skip(1)[i] by {
            assert(es[i] == effects[i + 1]);
        }
        law_failed_command_only_warns(es, a.skip(1), b.skip(1));
        assert(effects[0] is Run || a[0] == b[0]);
    }
}

// ---------------------------------------------------------------------------
// Installing and uninstalling
// ---------------------------------------------------------------------------

/// How an installation ends: with the reason why nothing is done, with the
/// error that ends the work, or with the state of the service once the wait for
/// it is over.
pub open spec fn install_result(
    plan: Result<Seq<EffectView>, Seq<char>>,
    outcomes: Seq<Result<(), Seq<char>>>,
    active: bool,
) -> Result<Seq<char>, Seq<char>> {
    match plan {
        Err(e) => Err(e),
        Ok(effects) => match work_result(effects, outcomes) {
            Err(e) => Err(e),
            Ok(_) => ended(active),
        },
    }
}

/// On Linux an installation succeeds exactly when the running program and the
/// place of the unit are known, the unit could be written and the service became
/// active, whatever the commands return. If the unit could not be written, no
/// command is run; once it is written, it stays.
pub proof fn law_install_on_linux(
    port: nat,
    running: Result<Seq<char>, Seq<char>>,
    files: Result<FilesView, Seq<char>>,
    outcomes: Seq<Result<(), Seq<char>>>,
    active: bool,
)
    requires
        outcomes.len() == 5,
    ensures
        ({
            let plan = install_plan(Platform::Linux, port, running, files);
            &&& install_result(plan, outcomes, active) is Ok <==> running is Ok && files is Ok
                && outcomes[0] is Ok && active
            &&& plan matches Ok(effects) ==> {
                &&& effects.len() == 5
                &&& outcomes[0] is Err ==> carried_out(effects, outcomes) == 1 && install_result(
                    plan,
                    outcomes,
                    active,
                ) == Err::<Seq<char>, Seq<char>>(outcomes[0]->Err_0)
                &&& effects[0] is WriteService
                &&& forall|i: int| 0 <= i < 5 ==> !removes(#[trigger] effects[i])
            }
        }),
{
    let plan = install_plan(Platform::Linux, port, running, files);
    if running is Ok && files is Ok {
        let effects = plan->Ok_0;
        law_work_result(effects, outcomes);
        assert(must_succeed(effects[0]));
    }
}

/// On macOS an installation succeeds exactly when the running program and the
/// places of the files are known, the app bundle and the property list could be
/// made and the service became active. If one of them could not be made, no
/// command is run; once they are made, they stay.
pub proof fn law_install_on_macos(
    port: nat,
    running: Result<Seq<char>, Seq<char>>,
    files: Result<FilesView, Seq<char>>,
    outcomes: Seq<Result<(), Seq<char>>>,
    active: bool,
)
    requires
        outcomes.len() == 5,
    ensures
        ({
            let plan = install_plan(Platform::MacOs, port, running, files);
            &&& install_result(plan, outcomes, active) is Ok <==> running is Ok && files is Ok
                && outcomes[0] is Ok && outcomes[1] is Ok && active
            &&& plan matches Ok(effects) ==> {
                &&& effects.len() == 5
                &&& outcomes[0] is Err || outcomes[1] is Err ==> carried_out(effects, outcomes)
                    <= 2
                &&& effects[0] == EffectView::MakeBundle { info: info_text() }
                &&& effects[1] is WriteService
                &&& forall|i: int| 0 <= i < 5 ==> !removes(#[trigger] effects[i])
            }
        }),
{
    let plan = install_plan(Platform::MacOs, port, running, files);
    if running is Ok && files is Ok {
        let effects = plan->Ok_0;
        law_work_result(effects, outcomes);
        assert(must_succeed(effects[0]) && must_succeed(effects[1]));
    }
}

/// On Linux an uninstallation of a service that is there succeeds exactly when
/// the unit could be removed, whatever the commands return, and then all of it
/// was carried out.
pub proof fn law_uninstall_on_linux(files: FilesView, outcomes: Seq<Result<(), Seq<char>>>)
    requires
        outcomes.len() == 4,
    ensures
        ({
            let plan = uninstall_plan(Platform::Linux, Ok(files), true);
            &&& plan matches Ok(effects) && {
                &&& effects.len() == 4
                &&& effects[1] is RemoveService
                &&& work_result(effects, outcomes) is Ok <==> outcomes[1] is Ok
                &&& outcomes[1] is Ok ==> carried_out(effects, outcomes) == 4
            }
        }),
{
    let effects = uninstall_effects(Platform::Linux, files.service, true);
    law_work_result(effects, outcomes);
    assert(must_succeed(effects[1]));
}

/// On macOS an uninstallation of a service that is there succeeds exactly when
/// the property list and the app bundle could be removed, whatever the command
/// returns.
pub proof fn law_uninstall_on_macos(files: FilesView, outcomes: Seq<Result<(), Seq<char>>>)
    requires
        outcomes.len() == 4,
    ensures
        ({
            let plan = uninstall_plan(Platform::MacOs, Ok(files), true);
            &&& plan matches Ok(effects) && {
                &&& effects.len() == 4
                &&& effects[1] is RemoveService
                &&& effects[2] is RemoveBundle
                &&& work_result(effects, outcomes) is Ok <==> outcomes[1] is Ok && outcomes[2] is Ok
                &&& work_result(effects, outcomes) is Ok ==> carried_out(effects, outcomes) == 4
            }
        }),
{
    let effects = uninstall_effects(Platform::MacOs, files.service, true);
    law_work_result(effects, outcomes);
    assert(must_succeed(effects[1]) && must_succeed(effects[2]));
}

/// `e` takes away what `put` has put there.
pub open spec fn takes_away(e: EffectView, put: EffectView) -> bool {
    match put {
        EffectView::WriteService { .. } => e is RemoveService,
        EffectView::MakeBundle { .. } => e is RemoveBundle,
        _ => false,
    }
}

/// `e` puts something there that stays.
pub open spec fn puts(e: EffectView) -> bool {
    e is WriteService || e is MakeBundle
}

/// `e` takes something away.
pub open spec fn removes(e: EffectView) -> bool {
    e is RemoveService || e is RemoveBundle
}

/// An uninstallation takes away all that an installation puts there, and
/// nothing else: the program and the logs stay.
pub proof fn law_uninstall_undoes_install(
    platform: Platform,
    port: nat,
    running: Seq<char>,
    files: FilesView,
)
    ensures
        ({
            let there = install_effects(platform, port, running, files);
            let gone = uninstall_effects(platform, files.service, true);
            &&& forall|i: int|
                0 <= i < there.len() && puts(#[trigger] there[i]) ==> exists|j: int|
                    0 <= j < gone.len() && takes_away(#[trigger] gone[j], there[i])
            &&& forall|j: int|
                0 <= j < gone.len() && removes(#[trigger] gone[j]) ==> exists|i: int|
                    0 <= i < there.len() && takes_away(gone[j], #[trigger] there[i])
        }),
{
    let there = install_effects(platform, port, running, files);
    let gone = uninstall_effects(platform, files.service, true);
    match platform {
        Platform::Linux => {
            assert(takes_away(gone[1], there[0]));
        },
        Platform::MacOs => {
            assert(takes_away(gone[1], there[1]));
            assert(takes_away(gone[2], there[0]));
        },
        Platform::Other => {},
    }
}

/// The command that starts the service anew.
pub open spec fn starts_anew(platform: Platform, service: Seq<char>) -> EffectView {
    match platform {
        Platform::Linux => command("systemctl"@, seq!["--user"@, "restart"@, "tetron-systray"@]),
        _ => command("launchctl"@, seq!["load"@, "-w"@, service]),
    }
}

/// Once the unit or the property list is written, the service is started anew,
/// so that an installation over a running service takes effect.
pub proof fn law_install_restarts(
    platform: Platform,
    port: nat,
    running: Seq<char>,
    files: FilesView,
)
    requires
        platform != Platform::Other,
    ensures
        ({
            let e = install_effects(platform, port, running, files);
            &&& e.contains(starts_anew(platform, files.service))
            &&& forall|i: int|
                0 <= i < e.len() && (#[trigger] e[i]) is WriteService ==> e.skip(i).contains(
                    starts_anew(platform, files.service),
                )
        }),
{
    let e = install_effects(platform, port, running, files);
    assert(e[3] == starts_anew(platform, files.service));
    assert forall|i: int| 0 <= i < e.len() && (#[trigger] e[i]) is WriteService implies e.skip(
        i,
    ).contains(starts_anew(platform, files.service)) by {
        assert(e.skip(i)[3 - i] == e[3]);
    }
}

// ---------------------------------------------------------------------------
// The wait for the service
// ---------------------------------------------------------------------------

/// One question to the service manager: whether the service is active, and what
/// the clock showed after that.
pub struct Asked {
    pub active: bool,
    pub now: Moment,
}

/// How the wait ends, if the service manager answers like this whenever it is
/// asked: with the flag that says whether the service became active, or not yet.
pub open spec fn wait_result(deadline: Moment, asked: Seq<Asked>) -> Option<bool>
    decreases asked.len(),
{
    if asked.len() == 0 {
        None
    } else {
        match wait_step(deadline, asked[0].active, asked[0].now) {
            WaitStep::Done { active } => Some(active),
            WaitStep::Sleep { .. } => wait_result(deadline, asked.skip(1)),
        }
    }
}

/// How often the service manager is asked.
pub open spec fn times_asked(deadline: Moment, asked: Seq<Asked>) -> nat
    decreases asked.len(),
{
    if asked.len() == 0 {
        0
    } else {
        match wait_step(deadline, asked[0].active, asked[0].now) {
            WaitStep::Done { .. } => 1,
            WaitStep::Sleep { .. } => 1 + times_asked(deadline, asked.skip(1)),
        }
    }
}

/// The answer leaves the wait open: the service is not active, and the deadline
/// has not come.
pub open spec fn leaves_open(deadline: Moment, a: Asked) -> bool {
    !a.active && a.now.nanos < deadline.nanos
}

/// The wait ends with the first answer that does not leave it open, and not
/// before the service manager was asked once. It ends well if that answer says
/// that the service is active, even past the deadline, and otherwise only
/// because the deadline has come.
pub proof fn law_wait_for_active(deadline: Moment, asked: Seq<Asked>)
    ensures
        wait_result(deadline, asked) is None <==> forall|i: int|
            0 <= i < asked.len() ==> leaves_open(deadline, #[trigger] asked[i]),
        wait_result(deadline, asked) is None ==> times_asked(deadline, asked) == asked.len(),
        wait_result(deadline, asked) matches Some(active) ==> {
            let k = times_asked(deadline, asked) - 1;
            &&& 0 <= k < asked.len()
            &&& active == asked[k].active
            &&& !active ==> asked[k].now.nanos >= deadline.nanos
            &&& forall|i: int| 0 <= i < k ==> leaves_open(deadline, #[trigger] asked[i])
        },
    decreases asked.len(),
{
    if asked.len() > 0 {
        let rest = asked.skip(1);
        law_wait_for_active(deadline, rest);
        assert forall|i: int| 1 <= i < asked.len() implies #[trigger] asked[i] == rest[i - 1] by {}
        assert forall|i: int| 0 <= i < rest.len() implies #[trigger] rest[i] == asked[i + 1] by {}
    }
}

/// The first answer that the service is active ends the wait well, if it comes
/// before the wait has ended otherwise.
pub proof fn law_first_active_answer_ends_wait(deadline: Moment, asked: Seq<Asked>, k: int)
    requires
        0 <= k < asked.len(),
        asked[k].active,
        forall|i: int| 0 <= i < k ==> leaves_open(deadline, #[trigger] asked[i]),
    ensures
        wait_result(deadline, asked) == Some(true),
        times_asked(deadline, asked) == k + 1,
{
    law_wait_for_active(deadline, asked);
    assert(!leaves_open(deadline, asked[k]));
    let n = times_asked(deadline, asked) - 1;
    if n < k {
        assert(leaves_open(deadline, asked[n]));
    }
}

// ---------------------------------------------------------------------------
// Single answers, texts and effects
// ---------------------------------------------------------------------------

/// On Linux the service is active exactly where the service manager prints the
/// word `active`, with nothing but white space around it, however the command
/// ends.
pub proof fn law_active_on_linux(success: bool, stdout: Seq<char>)
    ensures
        says_active(Platform::Linux, success, stdout) <==> exists|a: Seq<char>, b: Seq<char>|
            {
                &&& blank(a)
                &&& blank(b)
                &&& stdout == #[trigger] (a + "active"@ + b)
            },
{
    reveal_strlit("active");
    assert(tight("active"@));
    if says_active(Platform::Linux, success, stdout) {
        law_trimming_leaves_the_rest(stdout);
    }
    if exists|a: Seq<char>, b: Seq<char>|
        blank(a) && blank(b) && stdout == #[trigger] (a + "active"@ + b) {
        let (a, b) = choose|a: Seq<char>, b: Seq<char>|
            blank(a) && blank(b) && stdout == #[trigger] (a + "active"@ + b);
        law_trimming_takes_white_space(a, "active"@, b);
    }
}

/// On Linux every other state that the service manager prints counts as not
/// active.
pub proof fn law_other_states_are_not_active(
    success: bool,
    a: Seq<char>,
    state: Seq<char>,
    b: Seq<char>,
)
    requires
        blank(a),
        blank(b),
        tight(state),
        state != "active"@,
    ensures
        !says_active(Platform::Linux, success, a + state + b),
{
    law_trimming_takes_white_space(a, state, b);
}

/// On macOS the service counts as active exactly where the command succeeds,
/// whatever it prints.
pub proof fn law_active_on_macos(success: bool, stdout: Seq<char>)
    ensures
        says_active(Platform::MacOs, success, stdout) == success,
        !says_active(Platform::Other, success, stdout),
{
}

/// The service manager is asked for this service.
pub proof fn law_state_query()
    ensures
        state_query(Platform::Linux) == Some(
            ("systemctl"@, seq!["--user"@, "is-active"@, "tetron-systray"@]),
        ),
        state_query(Platform::MacOs) == Some(
            ("launchctl"@, seq!["list"@, "com.tetron.systray"@]),
        ),
        state_query(Platform::Other) is None,
{
}

/// While the wait is open, the service manager is asked again after a quarter of
/// a second.
pub proof fn law_wait_sleeps(deadline: Moment, active: bool, now: Moment)
    ensures
        active ==> wait_step(deadline, active, now) == (WaitStep::Done { active: true }),
        !active && now.nanos >= deadline.nanos ==> wait_step(deadline, active, now) == (
        WaitStep::Done { active: false }),
        !active && now.nanos < deadline.nanos ==> wait_step(deadline, active, now) == (
        WaitStep::Sleep { millis: 250 }),
{
}

/// A command gives a warning exactly where it fails or cannot be run, which names
/// the command and what went wrong.
pub proof fn law_warning(program: Seq<char>, text: String)
    ensures
        warning(program, RunOutcome::Success) is None,
        warning(program, RunOutcome::Failed { status: text }) == Some(
            "warning: `"@ + program + "` exited with "@ + text@,
        ),
        warning(program, RunOutcome::NotRun { error: text }) == Some(
            "warning: failed to run `"@ + program + "`: "@ + text@,
        ),
{
}

/// Only a write, a removal or a bundle that fails ends the work, with its own
/// error.
pub proof fn law_going_on(effect: EffectView, e: Seq<char>)
    ensures
        going_on(effect, Ok(())) == Ok::<(), Seq<char>>(()),
        puts(effect) || removes(effect) ==> going_on(effect, Err(e)) == Err::<(), Seq<char>>(e),
        effect is Run || effect is Say || effect is Note ==> going_on(effect, Err(e)) == Ok::<
            (),
            Seq<char>,
        >(()),
{
}

/// An installation ends with what the wait came to.
pub proof fn law_ended()
    ensures
        ended(true) == Ok::<Seq<char>, Seq<char>>(
            "tetron-systray service installed and running."@,
        ),
        ended(false) is Err,
        mentions(ended(false)->Err_0, "service was installed but never reported active.\n"@),
        mentions(
            ended(false)->Err_0,
            "Check the service logs (journalctl --user -u tetron-systray on Linux, "@
                + "or the log path in the plist on macOS)."@,
        ),
{
    let a = "service was installed but never reported active.\n"@;
    let b = "Check the service logs (journalctl --user -u tetron-systray on Linux, "@
        + "or the log path in the plist on macOS)."@;
    let none = Seq::<char>::empty();
    lemma_mentions(none, a, b);
    assert(none + a + b =~= ended(false)->Err_0);
    lemma_mentions(a, b, none);
    assert(a + b + none =~= ended(false)->Err_0);
}

/// The service runs the copy in the app bundle on macOS, and the running program
/// elsewhere.
pub proof fn law_program_of_service(running: Seq<char>, bundled: Seq<char>)
    ensures
        exe_of(Platform::Linux, running, bundled) == running,
        exe_of(Platform::MacOs, running, bundled) == bundled,
        exe_of(Platform::Other, running, bundled) == running,
{
}

/// A port is set in decimal, whatever it is.
pub proof fn law_port_settings(port: nat)
    ensures
        unit_port(port) == "TETRON_WEBUI_PORT="@ + dec(port),
        plist_port(port) == "<string>"@ + dec(port) + "</string>"@,
{
}

/// What is written for each platform is its own file, with the port, the program
/// and the log that are given.
pub proof fn law_service_file(port: nat, running: Seq<char>, files: FilesView)
    ensures
        service_text(Platform::Linux, port, running, files) == "[Service]\nEnvironment="@
            + unit_port(port) + "\nExecStart="@ + running + unit_middle()
            + "\nWantedBy=default.target graphical-session.target\n"@,
        service_text(Platform::MacOs, port, running, files) == plist_head() + plist_port(port)
            + plist_start() + replaced(files.bundled, template_log(), files.log) + plist_middle()
            + files.log + plist_between() + files.log + plist_tail(),
{
    law_unit_file(running, port);
    law_plist_file(files.bundled, files.log, port);
}

/// On Linux an installation writes the unit, has the service manager read it,
/// enables the service and starts it anew, in this order.
pub proof fn law_install_order_on_linux(port: nat, running: Seq<char>, files: FilesView)
    ensures
        ({
            let e = install_effects(Platform::Linux, port, running, files);
            &&& e.len() == 5
            &&& e[0] == (EffectView::WriteService {
                text: service_text(Platform::Linux, port, running, files),
            })
            &&& e[1] == command("systemctl"@, seq!["--user"@, "daemon-reload"@])
            &&& e[2] == command(
                "systemctl"@,
                seq!["--user"@, "enable"@, "--now"@, "tetron-systray"@],
            )
            &&& e[3] == command("systemctl"@, seq!["--user"@, "restart"@, "tetron-systray"@])
            &&& e[4] == (EffectView::Note { text: "waiting for tetron-systray to start…"@ })
        }),
{
}

/// On macOS an installation makes the bundle, writes the property list, and loads
/// it anew, in this order.
pub proof fn law_install_order_on_macos(port: nat, running: Seq<char>, files: FilesView)
    ensures
        ({
            let e = install_effects(Platform::MacOs, port, running, files);
            &&& e.len() == 5
            &&& e[0] == (EffectView::MakeBundle { info: info_text() })
            &&& e[1] == (EffectView::WriteService {
                text: service_text(Platform::MacOs, port, running, files),
            })
            &&& e[2] == (EffectView::Run {
                program: "launchctl"@,
                args: seq!["unload"@, files.service],
                quiet: true,
            })
            &&& e[3] == command("launchctl"@, seq!["load"@, "-w"@, files.service])
            &&& e[4] == (EffectView::Note { text: "waiting for tetron-systray to start…"@ })
        }),
{
}

/// A command is run with its output and its warnings.
pub proof fn law_command(program: Seq<char>, args: Seq<Seq<char>>)
    ensures
        command(program, args) == (EffectView::Run { program, args, quiet: false }),
{
}

/// An uninstallation stops the service before it takes away its files, in this
/// order, and only says so where there is nothing to take away.
pub proof fn law_uninstall_order(service: Seq<char>)
    ensures
        uninstall_effects(Platform::Linux, service, true) == seq![
            command("systemctl"@, seq!["--user"@, "disable"@, "--now"@, "tetron-systray"@]),
            EffectView::RemoveService,
            command("systemctl"@, seq!["--user"@, "daemon-reload"@]),
            EffectView::Say { text: "Removed systemd --user service."@ },
        ],
        uninstall_effects(Platform::MacOs, service, true) == seq![
            command("launchctl"@, seq!["unload"@, "-w"@, service]),
            EffectView::RemoveService,
            EffectView::RemoveBundle,
            EffectView::Say { text: "Removed launchd LaunchAgent."@ },
        ],
        uninstall_effects(Platform::Linux, service, false) == seq![
            EffectView::Say { text: "Service not installed."@ },
        ],
        uninstall_effects(Platform::MacOs, service, false) == seq![
            EffectView::Say { text: "Service not installed."@ },
        ],
{
}

/// Nothing is done where the running program is not known, on a platform without
/// a service, or where the files have no place; the first of these is the reason
/// that is given.
pub proof fn law_plans(
    platform: Platform,
    port: nat,
    running: Seq<char>,
    files: FilesView,
    e: Seq<char>,
    any: Result<FilesView, Seq<char>>,
    installed: bool,
)
    ensures
        install_plan(platform, port, Err(e), any) == Err::<Seq<EffectView>, Seq<char>>(e),
        install_plan(Platform::Other, port, Ok(running), any) == Err::<Seq<EffectView>, Seq<char>>(
            "per-user service install not supported on this platform"@,
        ),
        uninstall_plan(Platform::Other, any, installed) == Err::<Seq<EffectView>, Seq<char>>(
            "per-user service uninstall not supported on this platform"@,
        ),
        platform != Platform::Other ==> {
            &&& install_plan(platform, port, Ok(running), Err(e)) == Err::<
                Seq<EffectView>,
                Seq<char>,
            >(e)
            &&& install_plan(platform, port, Ok(running), Ok(files)) == Ok::<
                Seq<EffectView>,
                Seq<char>,
            >(install_effects(platform, port, running, files))
            &&& uninstall_plan(platform, Err(e), installed) == Err::<Seq<EffectView>, Seq<char>>(e)
            &&& uninstall_plan(platform, Ok(files), installed) == Ok::<
                Seq<EffectView>,
                Seq<char>,
            >(uninstall_effects(platform, files.service, installed))
        },
{
}

/// The models of effects and of places hold what these hold.
pub proof fn law_service_models(
    text: String,
    args: Vec<String>,
    quiet: bool,
    files: ServiceFiles,
    effects: Seq<Effect>,
)
    ensures
        (Effect::WriteService { text })@ == (EffectView::WriteService { text: text@ }),
        Effect::RemoveService@ == EffectView::RemoveService,
        (Effect::MakeBundle { info: text })@ == (EffectView::MakeBundle { info: text@ }),
        Effect::RemoveBundle@ == EffectView::RemoveBundle,
        (Effect::Run { program: text, args, quiet })@ == (EffectView::Run {
            program: text@,
            args: views(args@),
            quiet,
        }),
        (Effect::Say { text })@ == (EffectView::Say { text: text@ }),
        (Effect::Note { text })@ == (EffectView::Note { text: text@ }),
        files@.service == files.service@,
        files@.log == files.log@,
        files@.bundled == files.bundled@,
        effect_views(effects).len() == effects.len(),
        forall|i: int|
            0 <= i < effects.len() ==> #[trigger] effect_views(effects)[i] == effects[i]@,
        views(args@).len() == args.len(),
        forall|i: int| 0 <= i < args.len() ==> #[trigger] views(args@)[i] == args@[i]@,
        found(Ok(text)) == Ok::<Seq<char>, Seq<char>>(text@),
        found(Err(text)) == Err::<Seq<char>, Seq<char>>(text@),
        files_found(Ok(files)) == Ok::<FilesView, Seq<char>>(files@),
        files_found(Err(text)) == Err::<FilesView, Seq<char>>(text@),
        came_out(Ok(())) == Ok::<(), Seq<char>>(()),
        came_out(Err(text)) == Err::<(), Seq<char>>(text@),
        planned(Err(text)) == Err::<Seq<EffectView>, Seq<char>>(text@),
{
}

/// Replacing takes the first occurrence, puts the new text in its place, and goes
/// on behind it.
pub proof fn law_replacing_takes_the_first(
    before: Seq<char>,
    from: Seq<char>,
    behind: Seq<char>,
    to: Seq<char>,
)
    requires
        from.len() > 0,
        none_before(before + from + behind, from, before.len()),
    ensures
        replaced(before + from + behind, from, to) == before + to + replaced(behind, from, to),
{
    lemma_replaced_first(before, from, behind, to);
}

/// Replacing leaves a text without an occurrence as it is.
pub proof fn law_replacing_without_occurrence(s: Seq<char>, from: Seq<char>, to: Seq<char>)
    requires
        none_before(s, from, s.len()),
    ensures
        replaced(s, from, to) == s,
{
    lemma_replaced_absent(s, from, to);
}

/// The property list has the label that the service manager is asked for, starts
/// the program at login, and sends what it prints to the log, whatever the program
/// and the log are called.
pub proof fn law_plist_holds_what_it_must(exe: Seq<char>, log: Seq<char>, port: nat)
    ensures
        ({
            let text = plist_text(plist_template(), exe, log, port);
            &&& mentions(text, "<key>Label</key>\n    <string>com.tetron.systray</string>\n"@)
            &&& mentions(text, "<key>RunAtLoad</key>\n    <true/>\n"@)
            &&& mentions(
                text,
                "<key>StandardOutPath</key>\n    <string>"@ + log + "</string>\n"@,
            )
            &&& mentions(
                text,
                "<key>StandardErrorPath</key>\n    <string>"@ + log + "</string>\n"@,
            )
            &&& none_before(exe, template_log(), exe.len()) ==> mentions(
                text,
                "<key>ProgramArguments</key>\n    <array>\n        <string>"@ + exe
                    + "</string>\n    </array>\n"@,
            )
        }),
{
    law_plist_file(exe, log, port);
    let program = replaced(exe, template_log(), log);
    let hq = plist_head() + plist_port(port);
    let t1 = hq + plist_start();
    let t2 = t1 + program;
    let t3 = t2 + plist_middle();
    let t4 = t3 + log;
    let t5 = t4 + plist_between();
    let t6 = t5 + log;
    let label = "<key>Label</key>\n    <string>com.tetron.systray</string>\n"@;
    let at_load = "<key>RunAtLoad</key>\n    <true/>\n"@;
    let argument = "<key>ProgramArguments</key>\n    <array>\n        <string>"@;
    let ended = "</string>\n    </array>\n"@;
    let out = "<key>StandardOutPath</key>\n    <string>"@;
    let err = "<key>StandardErrorPath</key>\n    <string>"@;
    let close = "</string>\n"@;
    lemma_start_parts();
    lemma_middle_parts();
    lemma_end_parts();

    lemma_mentions_right(hq, plist_start(), label);
    lemma_mentions_left(t1, program, label);
    lemma_mentions_left(t2, plist_middle(), label);
    lemma_mentions_left(t3, log, label);
    lemma_mentions_left(t4, plist_between(), label);
    lemma_mentions_left(t5, log, label);
    lemma_mentions_left(t6, plist_tail(), label);

    lemma_mentions_right(t2, plist_middle(), at_load);
    lemma_mentions_left(t3, log, at_load);
    lemma_mentions_left(t4, plist_between(), at_load);
    lemma_mentions_left(t5, log, at_load);
    lemma_mentions_left(t6, plist_tail(), at_load);

    lemma_mentions_across(t2, plist_middle(), out, log, close, plist_between());
    lemma_mentions_left(t5, log, out + log + close);
    lemma_mentions_left(t6, plist_tail(), out + log + close);

    lemma_mentions_across(t4, plist_between(), err, log, close, plist_tail());

    if none_before(exe, template_log(), exe.len()) {
        lemma_replaced_absent(exe, template_log(), log);
        lemma_mentions_across(hq, plist_start(), argument, exe, ended, plist_middle());
        lemma_mentions_left(t3, log, argument + exe + ended);
        lemma_mentions_left(t4, plist_between(), argument + exe + ended);
        lemma_mentions_left(t5, log, argument + exe + ended);
        lemma_mentions_left(t6, plist_tail(), argument + exe + ended);
    }
}

/// `s` ends with `end`.
spec fn ends_with(s: Seq<char>, end: Seq<char>) -> bool {
    exists|a: Seq<char>| s == #[trigger] (a + end)
}

/// `s` starts with `start`.
spec fn starts_with(s: Seq<char>, start: Seq<char>) -> bool {
    exists|b: Seq<char>| s == #[trigger] (start + b)
}

proof fn lemma_mentions_left(a: Seq<char>, b: Seq<char>, part: Seq<char>)
    requires
        mentions(a, part),
    ensures
        mentions(a + b, part),
{
    let j = choose|j: int| #[trigger] occurs_at(a, part, j);
    assert((a + b).subrange(j, j + part.len()) =~= a.subrange(j, j + part.len()));
    assert(occurs_at(a + b, part, j));
}

proof fn lemma_mentions_right(a: Seq<char>, b: Seq<char>, part: Seq<char>)
    requires
        mentions(b, part),
    ensures
        mentions(a + b, part),
{
    let j = choose|j: int| #[trigger] occurs_at(b, part, j);
    let k = a.len() + j;
    assert((a + b).subrange(k, k + part.len()) =~= b.subrange(j, j + part.len()));
    assert(occurs_at(a + b, part, k));
}

proof fn lemma_mentions_across(
    x: Seq<char>,
    a: Seq<char>,
    end: Seq<char>,
    mid: Seq<char>,
    start: Seq<char>,
    b: Seq<char>,
)
    requires
        ends_with(a, end),
        starts_with(b, start),
    ensures
        mentions(x + a + mid + b, end + mid + start),
{
    let p = choose|p: Seq<char>| a == #[trigger] (p + end);
    let q = choose|q: Seq<char>| b == #[trigger] (start + q);
    lemma_mentions(x + p, end + mid + start, q);
    assert(x + p + (end + mid + start) + q =~= x + a + mid + b);
}

proof fn lemma_start_parts()
    ensures
        mentions(plist_start(), "<key>Label</key>\n    <string>com.tetron.systray</string>\n"@),
        ends_with(
            plist_start(),
            "<key>ProgramArguments</key>\n    <array>\n        <string>"@,
        ),
{
    let start = "\n    </dict>\n    <key>Label</key>\n    <string>com.tetron.systray</string>\n"@;
    let label = "<key>Label</key>\n    <string>com.tetron.systray</string>\n"@;
    let closed = "\n    </dict>\n    "@;
    assert(start =~= closed + label) by {
        reveal_strlit(
            "\n    </dict>\n    <key>Label</key>\n    <string>com.tetron.systray</string>\n",
        );
        reveal_strlit("<key>Label</key>\n    <string>com.tetron.systray</string>\n");
        reveal_strlit("\n    </dict>\n    ");
    }
    let arguments = "    <key>ProgramArguments</key>\n    <array>\n        <string>"@;
    let argument = "<key>ProgramArguments</key>\n    <array>\n        <string>"@;
    assert(arguments =~= "    "@ + argument) by {
        reveal_strlit("    <key>ProgramArguments</key>\n    <array>\n        <string>");
        reveal_strlit("<key>ProgramArguments</key>\n    <array>\n        <string>");
        reveal_strlit("    ");
    }
    lemma_mentions(closed, label, arguments);
    assert(start + arguments =~= (start + "    "@) + argument);
}

proof fn lemma_middle_parts()
    ensures
        mentions(plist_middle(), "<key>RunAtLoad</key>\n    <true/>\n"@),
        starts_with(plist_middle(), "</string>\n    </array>\n"@),
        ends_with(plist_middle(), "<key>StandardOutPath</key>\n    <string>"@),
{
    let m1 = "</string>\n    </array>\n    <key>RunAtLoad</key>\n    <true/>\n"@;
    let m2 = "    <key>KeepAlive</key>\n    <dict>\n        <key>SuccessfulExit</key>\n"@;
    let m3 = "        <false/>\n    </dict>\n    <key>StandardOutPath</key>\n    <string>"@;
    let ended = "</string>\n    </array>\n"@;
    let at_load = "<key>RunAtLoad</key>\n    <true/>\n"@;
    let not_kept = "        <false/>\n    </dict>\n    "@;
    let out = "<key>StandardOutPath</key>\n    <string>"@;
    assert(m1 =~= ended + "    "@ + at_load) by {
        reveal_strlit("</string>\n    </array>\n    <key>RunAtLoad</key>\n    <true/>\n");
        reveal_strlit("</string>\n    </array>\n");
        reveal_strlit("<key>RunAtLoad</key>\n    <true/>\n");
        reveal_strlit("    ");
    }
    assert(m3 =~= not_kept + out) by {
        reveal_strlit(
            "        <false/>\n    </dict>\n    <key>StandardOutPath</key>\n    <string>",
        );
        reveal_strlit("        <false/>\n    </dict>\n    ");
        reveal_strlit("<key>StandardOutPath</key>\n    <string>");
    }
    lemma_mentions(ended + "    "@, at_load, m2 + m3);
    assert(ended + "    "@ + at_load + (m2 + m3) =~= plist_middle());
    assert(plist_middle() =~= ended + ("    "@ + at_load + m2 + m3));
    assert(plist_middle() =~= (m1 + m2 + not_kept) + out);
}

proof fn lemma_end_parts()
    ensures
        starts_with(plist_between(), "</string>\n"@),
        ends_with(plist_between(), "<key>StandardErrorPath</key>\n    <string>"@),
        starts_with(plist_tail(), "</string>\n"@),
{
    let close = "</string>\n"@;
    let err = "<key>StandardErrorPath</key>\n    <string>"@;
    let done = "</dict>\n</plist>\n"@;
    assert(plist_between() =~= close + "    "@ + err) by {
        reveal_strlit("</string>\n    <key>StandardErrorPath</key>\n    <string>");
        reveal_strlit("</string>\n");
        reveal_strlit("<key>StandardErrorPath</key>\n    <string>");
        reveal_strlit("    ");
    }
    assert(plist_tail() =~= close + done) by {
        reveal_strlit("</string>\n</dict>\n</plist>\n");
        reveal_strlit("</string>\n");
        reveal_strlit("</dict>\n</plist>\n");
    }
    assert(plist_between() =~= close + ("    "@ + err));
}

/// The description of the app bundle names the program that is copied into it.
pub proof fn law_bundle_names_its_program()
    ensures
        mentions(
            info_text(),
            "    <key>CFBundleExecutable</key>\n    <string>tetron-systray</string>\n"@,
        ),
        mentions(
            info_text(),
            "    <key>CFBundlePackageType</key>\n    <string>APPL</string>\n"@,
        ),
        mentions(
            info_identifier(),
            "<key>CFBundleIdentifier</key>\n    <string>com.tetron.systray</string>"@,
        ),
        mentions(info_ui_element(), "<key>LSUIElement</key>\n    <true/>"@),
{
    let name = "    <key>CFBundleName</key>\n    <string>TetronSystray</string>\n"@;
    let program = "    <key>CFBundleExecutable</key>\n    <string>tetron-systray</string>\n"@;
    let kind = "    <key>CFBundlePackageType</key>\n    <string>APPL</string>\n"@;
    let tail = "</dict>\n</plist>\n"@;
    let front = plist_intro() + info_identifier() + name;
    lemma_mentions_itself(front, program);
    lemma_mentions_left(front + program, kind, program);
    lemma_mentions_left(front + program + kind, info_ui_element(), program);
    lemma_mentions_left(front + program + kind + info_ui_element(), tail, program);
    lemma_mentions_itself(front + program, kind);
    lemma_mentions_left(front + program + kind, info_ui_element(), kind);
    lemma_mentions_left(front + program + kind + info_ui_element(), tail, kind);
    lemma_identifier_parts();
    lemma_ui_element_parts();
}

proof fn lemma_mentions_itself(a: Seq<char>, part: Seq<char>)
    ensures
        mentions(a + part, part),
{
    lemma_mentions(a, part, Seq::empty());
    assert(a + part + Seq::<char>::empty() =~= a + part);
}

proof fn lemma_identifier_parts()
    ensures
        mentions(
            info_identifier(),
            "<key>CFBundleIdentifier</key>\n    <string>com.tetron.systray</string>"@,
        ),
{
    let id = "<key>CFBundleIdentifier</key>\n    <string>com.tetron.systray</string>"@;
    reveal_strlit("    <key>CFBundleIdentifier</key>\n    <string>com.tetron.systray</string>\n");
    reveal_strlit("<key>CFBundleIdentifier</key>\n    <string>com.tetron.systray</string>");
    assert(info_identifier().subrange(4, 4 + id.len() as int) =~= id);
    assert(occurs_at(info_identifier(), id, 4));
}

proof fn lemma_ui_element_parts()
    ensures
        mentions(info_ui_element(), "<key>LSUIElement</key>\n    <true/>"@),
{
    let element = "<key>LSUIElement</key>\n    <true/>"@;
    reveal_strlit("    <key>LSUIElement</key>\n    <true/>\n");
    reveal_strlit("<key>LSUIElement</key>\n    <true/>");
    assert(info_ui_element().subrange(4, 4 + element.len() as int) =~= element);
    assert(occurs_at(info_ui_element(), element, 4));
}

} // verus!
