//! Text building blocks and their order, held against the standard library.
use tetron_systray::environment::{open_webui, webui_url, Environment, Platform};
use tetron_systray::order::is_text_le;
use tetron_systray::text::{
    chars_of, join, parse_up_to, push_dec, replace_all, same_text, strip_prefix, trim, white_space,
};
use tetron_systray::version::{build_revision, full_version};

fn env(vars: &[(&str, &str)]) -> Environment {
    Environment { vars: vars.iter().map(|(n, v)| (n.to_string(), v.to_string())).collect() }
}

fn dec(n: u64) -> String {
    let mut s = String::from("x");
    push_dec(&mut s, n);
    s
}

#[test]
fn decimal_numbers_are_written_like_the_standard_library_writes_them() {
    for n in [0, 1, 9, 10, 11, 99, 100, 255, 7870, 65535, 1000000, u64::MAX] {
        assert_eq!(dec(n), format!("x{n}"));
    }
}

#[test]
fn written_numbers_parse_back() {
    for n in [0, 7, 10, 4096, u64::MAX] {
        let mut s = String::new();
        push_dec(&mut s, n);
        assert_eq!(parse_up_to(&s, u64::MAX), Some(n));
    }
}

#[test]
fn numbers_parse_as_the_standard_library_parses_them() {
    let samples = [
        "", "+", "-", "0", "-0", "+0", "00", "1", "+1", "-1", "++1", "1+", "65535", "65536",
        "065535", " 1", "1 ", "1_000", "1e3", "18446744073709551615", "18446744073709551616",
        "99999999999999999999999999", "000000000000000000000000000001", "abc", "１",
    ];
    for s in samples {
        assert_eq!(parse_up_to(s, u64::MAX), s.parse::<u64>().ok(), "{s:?}");
        assert_eq!(parse_up_to(s, 65535), s.parse::<u16>().ok().map(u64::from), "{s:?}");
    }
}

#[test]
fn prefixes_are_stripped() {
    assert_eq!(strip_prefix("resume:ab", "resume:"), Some("ab".to_string()));
    assert_eq!(strip_prefix("resume:", "resume:"), Some(String::new()));
    assert_eq!(strip_prefix("resume", "resume:"), None);
    assert_eq!(strip_prefix("…x", "…"), Some("x".to_string()));
}

#[test]
fn texts_are_joined() {
    let v: Vec<String> = vec!["a".to_string(), "".to_string(), "ü".to_string()];
    assert_eq!(join(&v, ", "), v.join(", "));
    assert_eq!(join(&Vec::new(), ","), "");
    assert_eq!(join(&vec!["one".to_string()], ","), "one");
}

#[test]
fn replacing_does_what_the_standard_library_does() {
    for (s, from, to) in [
        ("aXbXc", "X", "yy"),
        ("aaaa", "aa", "b"),
        ("aaa", "aa", "aaa"),
        ("abc", "d", "e"),
        ("", "a", "b"),
        ("äöä", "ä", ""),
        ("ExecStart=/usr/local/bin/tetron-systray\n", "/usr/local/bin/tetron-systray", "/x y"),
    ] {
        assert_eq!(replace_all(s, from, to), s.replace(from, to), "{s:?}");
    }
}

#[test]
fn white_space_is_that_of_the_standard_library() {
    for n in 0..=0x10ffffu32 {
        if let Some(c) = char::from_u32(n) {
            assert_eq!(white_space(c), c.is_whitespace(), "{n:x}");
        }
    }
}

#[test]
fn trimming_does_what_the_standard_library_does() {
    for s in ["", " ", "active\n", " a b ", "\u{a0}x\u{3000}", "\u{200b}x", "x"] {
        assert_eq!(trim(s), s.trim(), "{s:?}");
    }
}

#[test]
fn text_is_ordered_like_the_standard_library_orders_it() {
    let samples = [
        "", "a", "A", "aa", "ab", "b", "ä", "é", "~", "\u{ffff}", "\u{10000}", "\u{e000}", "Z",
        "a b", "a  b", "10.0.0.10", "10.0.0.9",
    ];
    for a in samples {
        for b in samples {
            assert_eq!(is_text_le(a, b), a <= b, "{a:?} {b:?}");
            assert_eq!(same_text(a, b), a == b);
        }
        assert_eq!(chars_of(a), a.chars().collect::<Vec<char>>());
    }
}

#[test]
fn the_dashboard_is_on_the_default_port() {
    assert_eq!(webui_url(&env(&[])), "http://127.0.0.1:7870");
    for bad in ["", "65536", "-1", "abc", "80 "] {
        assert_eq!(webui_url(&env(&[("TETRON_WEBUI_PORT", bad)])), "http://127.0.0.1:7870");
    }
}

#[test]
fn the_dashboard_is_on_the_port_that_is_set() {
    assert_eq!(webui_url(&env(&[("TETRON_WEBUI_PORT", "8080")])), "http://127.0.0.1:8080");
    assert_eq!(webui_url(&env(&[("TETRON_WEBUI_PORT", "0")])), "http://127.0.0.1:0");
    assert_eq!(webui_url(&env(&[("TETRON_WEBUI_PORT", "+65535")])), "http://127.0.0.1:65535");
}

#[test]
fn the_first_entry_of_a_variable_counts() {
    let e = env(&[("A", "1"), ("B", "2"), ("A", "3")]);
    assert_eq!(e.get("A"), Some("1".to_string()));
    assert_eq!(e.get("B"), Some("2".to_string()));
    assert_eq!(e.get("C"), None);
    assert_eq!(e.number("B", 2), Some(2));
    assert_eq!(e.number("B", 1), None);
}

#[test]
fn the_dashboard_is_opened_by_the_program_of_the_platform() {
    let e = env(&[("TETRON_WEBUI_PORT", "8080")]);
    let url = "http://127.0.0.1:8080".to_string();
    assert_eq!(open_webui(Platform::Linux, &e), Some(("xdg-open".to_string(), url.clone())));
    assert_eq!(open_webui(Platform::MacOs, &e), Some(("open".to_string(), url)));
    assert_eq!(open_webui(Platform::Other, &e), None);
}

#[test]
fn the_version_names_the_revision() {
    assert_eq!(full_version("0.8.4", "a1b2c3d4"), "0.8.4 (a1b2c3d4)");
    assert_eq!(build_revision(Some("a1b2c3d4\n")), "a1b2c3d4");
    assert_eq!(build_revision(Some(" \n")), "unknown");
    assert_eq!(build_revision(None), "unknown");
}
