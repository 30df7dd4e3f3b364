//! Member rows, the menu built from scratch, clicks and fingerprints.
use tetron_systray::actions::{handle_click, make_member_id, ClickAction, Request};
use tetron_systray::fingerprint::structural_fingerprint;
use tetron_systray::ipc_client::{
    action_report, call, poll_result, ActionReply, CallStage, PollResult, StatusReply,
};
use tetron_systray::members::{compute_desired_rows, Ipv4, NetworkStatus, PeerStatus};
use tetron_systray::menu::{
    build_menu_and_state, build_network_ui, make_header, make_more_text, submenu_entries,
    update_status_item, Entry, TopEntry, MAX_MEMBER_ROWS,
};

fn ip(d: u8) -> Ipv4 {
    Ipv4 { a: 10, b: 0, c: 0, d }
}

fn peer(host: Option<&str>, d: u8, connected: bool) -> PeerStatus {
    PeerStatus { hostname: host.map(|h| h.to_string()), ip: ip(d), connected }
}

fn network(name: &str, active: bool, peers: Vec<PeerStatus>) -> NetworkStatus {
    NetworkStatus {
        network: name.to_string(),
        my_hostname: Some("me".to_string()),
        my_ip: ip(1),
        member_count: peers.len() as u64 + 1,
        peers,
        active,
    }
}

fn labels(net: &NetworkStatus) -> Vec<String> {
    compute_desired_rows(net).into_iter().map(|r| r.label).collect()
}

fn item(id: &str, text: &str) -> Entry {
    Entry::Item { id: Some(id.to_string()), text: text.to_string() }
}

fn action(id: &str, text: &str) -> TopEntry {
    TopEntry::Action { id: id.to_string(), text: text.to_string() }
}

#[test]
fn rows_are_online_first_then_alphabetical() {
    let net = network(
        "home",
        true,
        vec![
            peer(Some("zed"), 2, true),
            peer(Some("alice"), 3, false),
            peer(None, 4, true),
            peer(Some("bob"), 5, true),
        ],
    );
    assert_eq!(
        labels(&net),
        [
            "10.0.0.4  10.0.0.4",
            "bob  10.0.0.5",
            "me  10.0.0.1 (you)",
            "zed  10.0.0.2",
            "alice  10.0.0.3 (offline)",
        ]
    );
}

#[test]
fn rows_carry_address_and_state() {
    let net = network("home", true, vec![peer(Some("a"), 9, false)]);
    let rows = compute_desired_rows(&net);
    assert_eq!(rows[0].ip, ip(1));
    assert!(rows[0].online);
    assert_eq!(rows[1].ip, ip(9));
    assert!(!rows[1].online);
}

#[test]
fn a_machine_without_a_host_name_goes_by_its_address() {
    let mut net = network("home", true, vec![]);
    net.my_hostname = None;
    net.my_ip = Ipv4 { a: 255, b: 20, c: 0, d: 109 };
    assert_eq!(labels(&net), ["255.20.0.109  255.20.0.109 (you)"]);
}

#[test]
fn rows_do_not_depend_on_the_order_of_the_peers() {
    let a = network("x", true, vec![peer(Some("b"), 2, true), peer(Some("a"), 3, false)]);
    let b = network("x", true, vec![peer(Some("a"), 3, false), peer(Some("b"), 2, true)]);
    assert_eq!(compute_desired_rows(&a), compute_desired_rows(&b));
}

#[test]
fn rows_with_one_label_keep_their_order() {
    // Same label and address, twice: a stable sort leaves both.
    let net = network("x", true, vec![peer(Some("b"), 2, true), peer(Some("b"), 2, true)]);
    assert_eq!(labels(&net), ["b  10.0.0.2", "b  10.0.0.2", "me  10.0.0.1 (you)"]);
}

#[test]
fn status_lines() {
    assert_eq!(update_status_item(false, false), "tetron: daemon unreachable");
    assert_eq!(update_status_item(false, true), "tetron: daemon unreachable");
    assert_eq!(update_status_item(true, true), "tetron: active");
    assert_eq!(update_status_item(true, false), "tetron: standby");
}

#[test]
fn headers_count_connected_peers_and_members() {
    let mut net =
        network("home", true, vec![peer(None, 2, true), peer(None, 3, false), peer(None, 4, true)]);
    net.member_count = 17;
    assert_eq!(make_header(&net), "home  (2/17)");
    net.active = false;
    assert_eq!(make_header(&net), "home  (2/17)  ·standby·");
}

#[test]
fn the_trailer_counts_what_is_left_out() {
    assert_eq!(make_more_text(3), "…and 3 more (open webui)");
}

#[test]
fn a_submenu_from_top_to_bottom() {
    let net = network("home", true, vec![peer(Some("bob"), 2, false)]);
    assert_eq!(
        submenu_entries(&build_network_ui(&net)),
        [
            item("copy_member_ip:10.0.0.1", "me  10.0.0.1 (you)"),
            item("copy_member_ip:10.0.0.2", "bob  10.0.0.2 (offline)"),
            Entry::Separator,
            item("standby:home", "Standby \"home\""),
        ]
    );
}

#[test]
fn a_submenu_on_standby_offers_to_resume() {
    let entries = submenu_entries(&build_network_ui(&network("home", false, vec![])));
    assert_eq!(entries[2], item("resume:home", "Resume \"home\""));
}

#[test]
fn ten_rows_fit_and_the_eleventh_becomes_a_trailer() {
    let peers = |n: u8| (0..n).map(|i| peer(Some("p"), 10 + i, true)).collect::<Vec<_>>();
    let ten = build_network_ui(&network("x", true, peers(9)));
    assert_eq!(ten.members.len(), MAX_MEMBER_ROWS);
    assert_eq!(ten.more, None);
    let eleven = build_network_ui(&network("x", true, peers(10)));
    assert_eq!(eleven.members.len(), 10);
    assert_eq!(eleven.more, Some("…and 1 more (open webui)".to_string()));
    let entries = submenu_entries(&eleven);
    assert_eq!(entries.len(), 13);
    assert_eq!(
        entries[10],
        Entry::Item { id: None, text: "…and 1 more (open webui)".to_string() }
    );
}

#[test]
fn the_menu_of_an_unreachable_daemon() {
    let m = build_menu_and_state(false, true, &vec![network("home", true, vec![])]);
    assert_eq!(
        m.entries,
        [
            TopEntry::Status { text: "tetron: daemon unreachable".to_string() },
            TopEntry::Separator,
            action("quit", "Quit"),
        ]
    );
    assert!(m.network_uis.is_empty());
}

#[test]
fn the_menu_of_a_reachable_daemon() {
    let nets = vec![network("b", true, vec![]), network("a", false, vec![])];
    let m = build_menu_and_state(true, true, &nets);
    assert_eq!(
        m.entries,
        [
            TopEntry::Status { text: "tetron: active".to_string() },
            TopEntry::Separator,
            TopEntry::Network { index: 0 },
            TopEntry::Network { index: 1 },
            TopEntry::Separator,
            action("resume_all", "Resume all"),
            action("standby_all", "Standby all"),
            TopEntry::Separator,
            action("open_webui", "Open webui"),
            TopEntry::Separator,
            action("quit", "Quit"),
        ]
    );
    assert_eq!(m.network_uis[0], build_network_ui(&nets[0]));
    assert_eq!(m.network_uis[1].key, "a");
    assert!(!m.network_uis[1].active);
}

#[test]
fn the_menu_without_networks_has_no_second_separator() {
    let m = build_menu_and_state(true, false, &vec![]);
    assert_eq!(m.entries.len(), 8);
    assert_eq!(m.entries[2], action("resume_all", "Resume all"));
}

fn resume(network: Option<&str>) -> ClickAction {
    let network = network.map(|n| n.to_string());
    ClickAction::Send { request: Request::Resume { hostname: None, network } }
}

fn standby(network: Option<&str>) -> ClickAction {
    let network = network.map(|n| n.to_string());
    ClickAction::Send { request: Request::Standby { network } }
}

#[test]
fn clicks() {
    assert_eq!(handle_click("resume:home"), resume(Some("home")));
    assert_eq!(handle_click("standby:home"), standby(Some("home")));
    assert_eq!(handle_click("resume_all"), resume(None));
    assert_eq!(handle_click("standby_all"), standby(None));
    assert_eq!(
        handle_click("copy_member_ip:10.0.0.7"),
        ClickAction::CopyToClipboard { text: "10.0.0.7".to_string() }
    );
    assert_eq!(handle_click("open_webui"), ClickAction::OpenWebui);
    for id in ["", "quit", "resume", "Resume_all", "open_webui ", "1001"] {
        assert_eq!(handle_click(id), ClickAction::Nothing, "{id:?}");
    }
}

#[test]
fn a_toggle_names_its_network_whatever_it_is_called() {
    for name in ["", "home", "resume:x", "standby:", "quit", "a b", "ü"] {
        assert_eq!(handle_click(&format!("resume:{name}")), resume(Some(name)));
        assert_eq!(handle_click(&format!("standby:{name}")), standby(Some(name)));
    }
}

#[test]
fn every_item_of_a_menu_has_a_meaning() {
    let net = network("n", true, vec![peer(None, 2, true)]);
    for e in submenu_entries(&build_network_ui(&net)) {
        if let Entry::Item { id: Some(id), .. } = e {
            assert_ne!(handle_click(&id), ClickAction::Nothing);
            assert_ne!(id, "quit");
        }
    }
    for e in build_menu_and_state(true, true, &vec![net]).entries {
        if let TopEntry::Action { id, .. } = e {
            assert!(id == "quit" || handle_click(&id) != ClickAction::Nothing);
        }
    }
}

fn named(names: &[&str]) -> Vec<NetworkStatus> {
    names.iter().map(|n| network(n, true, vec![])).collect()
}

#[test]
fn fingerprints() {
    assert_eq!(structural_fingerprint(false, &vec![]), "false|");
    assert_eq!(structural_fingerprint(true, &named(&["b", "a", "c"])), "true|a,b,c");
    assert_eq!(structural_fingerprint(true, &named(&["x"])), "true|x");
    assert_eq!(structural_fingerprint(true, &named(&["x y", "ü|z"])), "true|x y,ü|z");
    assert_eq!(structural_fingerprint(true, &named(&["a\\b"])), "true|a\\b");
    assert_eq!(structural_fingerprint(true, &named(&["\\e", "\\c"])), "true|\\c,\\e");
    assert_eq!(structural_fingerprint(true, &named(&[""])), "true|,\\e");
    assert_eq!(structural_fingerprint(true, &named(&["a,b", "c\\d"])), "true|,a\\cb,c\\d");
    assert_eq!(structural_fingerprint(true, &named(&["x\\,y"])), "true|,x\\\\\\cy");
}

#[test]
fn a_fingerprint_ignores_order_and_what_happens_within_a_network() {
    let a = vec![network("a", true, vec![peer(None, 2, true)]), network("b", true, vec![])];
    let b = vec![network("b", false, vec![]), network("a", false, vec![])];
    assert_eq!(structural_fingerprint(true, &a), structural_fingerprint(true, &b));
}

#[test]
fn a_fingerprint_tells_networks_apart() {
    let print = |names: &[&str]| structural_fingerprint(true, &named(names));
    assert_ne!(print(&["a"]), print(&["b"]));
    assert_ne!(print(&["a"]), print(&["a", "a"]));
    assert_ne!(print(&[]), print(&["a"]));
    assert_ne!(structural_fingerprint(false, &vec![]), print(&[]));
    assert_ne!(print(&["a,b"]), print(&["a", "b"]));
    assert_ne!(print(&[]), print(&[""]));
    assert_ne!(print(&[""]), print(&["", ""]));
    assert_ne!(print(&["\\e"]), print(&[""]));
    assert_ne!(print(&["a\\", "b"]), print(&["a,b"]));
    assert_ne!(print(&["\\c"]), print(&[","]));
    assert_ne!(print(&["", "x"]), print(&[",x"]));
    assert_ne!(print(&["a", ",b"]), print(&["a,", "b"]));
    assert_ne!(print(&["\\,"]), print(&["\\c"]));
}

#[test]
fn a_request_goes_through_its_steps() {
    assert_eq!(call(CallStage::Connect, Ok(())), Ok(Some(CallStage::Send)));
    assert_eq!(call(CallStage::Send, Ok(())), Ok(Some(CallStage::Receive)));
    assert_eq!(call(CallStage::Receive, Ok(())), Ok(None));
}

#[test]
fn a_failed_step_ends_a_request() {
    let failed = |stage| call(stage, Err("why".to_string())).unwrap_err();
    assert_eq!(failed(CallStage::Connect), "could not reach the tetron daemon: why");
    assert_eq!(failed(CallStage::Send), "failed to send request to daemon: why");
    assert_eq!(failed(CallStage::Receive), "failed to read daemon response: why");
}

#[test]
fn only_a_status_makes_the_daemon_reachable() {
    let status = StatusReply::Status { active: true, networks: named(&["a"]) };
    assert_eq!(
        poll_result(Ok(status)),
        PollResult::Reachable { active: true, networks: named(&["a"]) }
    );
    assert_eq!(poll_result(Ok(StatusReply::Other)), PollResult::Unreachable);
    assert_eq!(poll_result(Err("why".to_string())), PollResult::Unreachable);
}

#[test]
fn answers_to_actions_are_logged() {
    let done = ActionReply::Done { message: "resumed".to_string() };
    let refused = ActionReply::Refused { message: "no".to_string() };
    let other = ActionReply::Other { debug: "Status".to_string() };
    assert_eq!(action_report(&Ok(done)), "tetron-systray: resumed");
    assert_eq!(action_report(&Ok(refused)), "tetron-systray: error: no");
    assert_eq!(action_report(&Ok(other)), "tetron-systray: unexpected response: Status");
    assert_eq!(action_report(&Err("why".to_string())), "tetron-systray: why");
}

#[test]
fn a_label_names_the_machine() {
    let net = network(
        "x",
        true,
        vec![
            peer(Some("h"), 2, true),
            peer(Some("h"), 3, true),
            peer(Some("h"), 4, false),
            peer(Some("me"), 5, true),
            peer(None, 11, true),
            peer(Some("10.0.0.1"), 12, true),
        ],
    );
    let mut all = labels(&net);
    all.sort();
    all.dedup();
    assert_eq!(all.len(), 7);
}

#[test]
fn addresses_are_told_apart() {
    let dotted = |ip: Ipv4| make_member_id(ip);
    let a = Ipv4 { a: 1, b: 11, c: 1, d: 1 };
    let b = Ipv4 { a: 11, b: 1, c: 1, d: 1 };
    let c = Ipv4 { a: 1, b: 1, c: 11, d: 1 };
    assert_eq!(dotted(a), "copy_member_ip:1.11.1.1");
    assert_eq!(dotted(b), "copy_member_ip:11.1.1.1");
    assert_eq!(dotted(c), "copy_member_ip:1.1.11.1");
}

/// Runs a whole request whose steps come out like this.
fn request(outcomes: [bool; 3]) -> (Vec<CallStage>, Result<(), String>) {
    let mut taken = Vec::new();
    let mut stage = CallStage::Connect;
    loop {
        taken.push(stage);
        let ok = match stage {
            CallStage::Connect => outcomes[0],
            CallStage::Send => outcomes[1],
            CallStage::Receive => outcomes[2],
        };
        match call(stage, if ok { Ok(()) } else { Err("why".to_string()) }) {
            Ok(Some(next)) => stage = next,
            Ok(None) => return (taken, Ok(())),
            Err(e) => return (taken, Err(e)),
        }
    }
}

#[test]
fn a_whole_request() {
    let all = vec![CallStage::Connect, CallStage::Send, CallStage::Receive];
    let error = |text: &str| Err(format!("{text}: why"));
    assert_eq!(request([true, true, true]), (all.clone(), Ok(())));
    assert_eq!(
        request([false, true, false]),
        (all[..1].to_vec(), error("could not reach the tetron daemon"))
    );
    assert_eq!(
        request([true, false, false]),
        (all[..2].to_vec(), error("failed to send request to daemon"))
    );
    assert_eq!(
        request([true, true, false]),
        (all, error("failed to read daemon response"))
    );
}
