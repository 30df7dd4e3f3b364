//! In-place updates of submenus, and the tray over several events.
use tetron_systray::actions::{ClickAction, Request};
use tetron_systray::icon::icon_for;
use tetron_systray::ipc_client::PollResult;
use tetron_systray::members::{Ipv4, NetworkStatus, PeerStatus};
use tetron_systray::menu::{build_network_ui, submenu_entries, Entry, NetworkUi};
use tetron_systray::poll::{Clock, Moment, PollCmd, PollConfig, Poller, Wake, NANOS_PER_SEC};
use tetron_systray::reconcile::{update_network_chrome, update_network_members, MenuOp};
use tetron_systray::tray::{announces_menu, on_menu_event, MenuReaction, Tray, TrayEvent};

fn ip(d: u8) -> Ipv4 {
    Ipv4 { a: 10, b: 0, c: 0, d }
}

fn network(name: &str, active: bool, peers: &[(&str, u8, bool)]) -> NetworkStatus {
    NetworkStatus {
        network: name.to_string(),
        my_hostname: Some("me".to_string()),
        my_ip: ip(1),
        member_count: peers.len() as u64 + 1,
        peers: peers
            .iter()
            .map(|(h, d, connected)| PeerStatus {
                hostname: Some(h.to_string()),
                ip: ip(*d),
                connected: *connected,
            })
            .collect(),
        active,
    }
}

fn crowd(n: u8) -> NetworkStatus {
    let hosts: Vec<String> = (0..n).map(|i| format!("p{i:02}")).collect();
    let peers: Vec<(&str, u8, bool)> =
        hosts.iter().enumerate().map(|(i, h)| (h.as_str(), 10 + i as u8, true)).collect();
    network("crowd", true, &peers)
}

/// A native submenu, and whether its edits succeed.
struct Native {
    entries: Vec<Entry>,
    title: String,
}

impl Native {
    fn of(ui: &NetworkUi) -> Native {
        Native { entries: submenu_entries(ui), title: ui.title.clone() }
    }

    fn edit(&mut self, ui: &NetworkUi, op: &MenuOp) {
        let more_at = ui.members.len();
        let toggle_at = more_at + ui.more.iter().count() + 1;
        match op {
            MenuOp::RemoveMember { index } => {
                self.entries.remove(*index);
            }
            MenuOp::RelabelMember { index, label } => match &mut self.entries[*index] {
                Entry::Item { text, .. } => *text = label.clone(),
                Entry::Separator => panic!("no item"),
            },
            MenuOp::InsertMember { pos, id, label, .. } => self
                .entries
                .insert(*pos, Entry::Item { id: Some(id.clone()), text: label.clone() }),
            MenuOp::RelabelMore { text } => {
                self.entries[more_at] = Entry::Item { id: None, text: text.clone() }
            }
            MenuOp::InsertMore { pos, text } => {
                self.entries.insert(*pos, Entry::Item { id: None, text: text.clone() })
            }
            MenuOp::RemoveMore => {
                self.entries.remove(more_at);
            }
            MenuOp::SetTitle { text } => self.title = text.clone(),
            MenuOp::RemoveToggle => {
                self.entries.remove(toggle_at);
            }
            MenuOp::InsertToggle { pos, id, text, .. } => self
                .entries
                .insert(*pos, Entry::Item { id: Some(id.clone()), text: text.clone() }),
        }
    }
}

/// Brings a submenu up to date, with all edits succeeding.
fn update(ui: &mut NetworkUi, native: &mut Native, net: &NetworkStatus) {
    for op in update_network_members(ui, net) {
        native.edit(ui, &op);
        ui.apply(op);
        assert_eq!(native.entries, submenu_entries(ui));
    }
    for op in update_network_chrome(ui, net) {
        native.edit(ui, &op);
        ui.apply(op);
        assert_eq!(native.entries, submenu_entries(ui));
    }
    assert_eq!(native.title, ui.title);
}

fn texts(ui: &NetworkUi) -> Vec<String> {
    ui.members.iter().map(|m| m.label.clone()).collect()
}

#[test]
fn rows_that_stay_keep_their_place_and_new_ones_follow() {
    let before = network("n", true, &[("bob", 2, true), ("zed", 3, true)]);
    let mut ui = build_network_ui(&before);
    let mut native = Native::of(&ui);
    assert_eq!(texts(&ui), ["bob  10.0.0.2", "me  10.0.0.1 (you)", "zed  10.0.0.3"]);
    let after = network("n", true, &[("adam", 4, true), ("bob", 2, false), ("eve", 5, true)]);
    assert_eq!(
        update_network_members(&ui, &after),
        [
            MenuOp::RemoveMember { index: 2 },
            MenuOp::RelabelMember { index: 0, label: "bob  10.0.0.2 (offline)".to_string() },
            MenuOp::RelabelMember { index: 1, label: "me  10.0.0.1 (you)".to_string() },
            MenuOp::InsertMember {
                pos: 2,
                ip: ip(4),
                id: "copy_member_ip:10.0.0.4".to_string(),
                label: "adam  10.0.0.4".to_string(),
            },
            MenuOp::InsertMember {
                pos: 3,
                ip: ip(5),
                id: "copy_member_ip:10.0.0.5".to_string(),
                label: "eve  10.0.0.5".to_string(),
            },
        ]
    );
    update(&mut ui, &mut native, &after);
    assert_eq!(
        texts(&ui),
        ["bob  10.0.0.2 (offline)", "me  10.0.0.1 (you)", "adam  10.0.0.4", "eve  10.0.0.5"]
    );
    assert_eq!(ui.title, "n  (2/4)");
}

#[test]
fn rows_that_go_are_taken_out_from_the_back() {
    let before = network("n", true, &[("a", 2, true), ("b", 3, true), ("c", 4, true)]);
    let ui = build_network_ui(&before);
    let ops = update_network_members(&ui, &network("n", true, &[("b", 3, true)]));
    assert_eq!(ops[0], MenuOp::RemoveMember { index: 2 });
    assert_eq!(ops[1], MenuOp::RemoveMember { index: 0 });
}

#[test]
fn the_trailer_comes_changes_and_goes() {
    let mut ui = build_network_ui(&crowd(9));
    let mut native = Native::of(&ui);
    assert_eq!(ui.more, None);
    let last = |ui: &NetworkUi, net: &NetworkStatus| update_network_members(ui, net).pop().unwrap();
    let more = |n: u8| format!("…and {n} more (open webui)");
    assert_eq!(last(&ui, &crowd(11)), MenuOp::InsertMore { pos: 10, text: more(2) });
    update(&mut ui, &mut native, &crowd(11));
    assert_eq!(last(&ui, &crowd(12)), MenuOp::RelabelMore { text: more(3) });
    update(&mut ui, &mut native, &crowd(12));
    assert_eq!(ui.members.len(), 10);
    assert_eq!(last(&ui, &crowd(3)), MenuOp::RemoveMore);
    update(&mut ui, &mut native, &crowd(3));
    assert_eq!(ui.members.len(), 4);
    assert_eq!(ui.more, None);
}

#[test]
fn the_toggle_is_replaced_when_the_state_flips() {
    let mut ui = build_network_ui(&crowd(11));
    let mut native = Native::of(&ui);
    let mut net = crowd(11);
    net.active = false;
    assert_eq!(
        update_network_chrome(&ui, &net),
        [
            MenuOp::SetTitle { text: "crowd  (11/12)  ·standby·".to_string() },
            MenuOp::RemoveToggle,
            MenuOp::InsertToggle {
                pos: 12,
                id: "resume:crowd".to_string(),
                text: "Resume \"crowd\"".to_string(),
                active: false,
            },
        ]
    );
    update(&mut ui, &mut native, &net);
    assert!(!ui.active && ui.toggle_shown);
    assert_eq!(update_network_chrome(&ui, &net).len(), 1);
}

#[test]
fn a_second_update_changes_nothing() {
    let mut ui = build_network_ui(&crowd(4));
    let mut native = Native::of(&ui);
    let net = network("crowd", false, &[("x", 11, false), ("y", 77, true)]);
    update(&mut ui, &mut native, &net);
    let once = submenu_entries(&ui);
    for op in update_network_members(&ui, &net) {
        assert!(matches!(op, MenuOp::RelabelMember { .. } | MenuOp::RelabelMore { .. }));
    }
    assert_eq!(update_network_chrome(&ui, &net).len(), 1);
    update(&mut ui, &mut native, &net);
    assert_eq!(submenu_entries(&ui), once);
}

#[test]
fn an_update_after_a_build_changes_nothing() {
    let net = network("n", true, &[("bob", 2, true), ("zed", 3, false)]);
    let mut ui = build_network_ui(&net);
    let mut native = Native::of(&ui);
    update(&mut ui, &mut native, &net);
    assert_eq!(ui, build_network_ui(&net));
}

#[test]
fn an_update_shows_the_rows_of_a_build_in_maybe_another_order() {
    let mut ui = build_network_ui(&network("n", true, &[("bob", 2, true)]));
    let mut native = Native::of(&ui);
    let net = network("n", false, &[("adam", 4, true), ("bob", 2, true)]);
    update(&mut ui, &mut native, &net);
    let mut got = texts(&ui);
    let mut want = texts(&build_network_ui(&net));
    assert_ne!(got, want);
    got.sort();
    want.sort();
    assert_eq!(got, want);
}

#[test]
fn two_peers_with_one_address_get_one_row_in_an_update() {
    let mut ui = build_network_ui(&network("n", true, &[]));
    let mut native = Native::of(&ui);
    update(&mut ui, &mut native, &network("n", true, &[("b", 2, true), ("c", 2, true)]));
    assert_eq!(texts(&ui), ["me  10.0.0.1 (you)", "b  10.0.0.2"]);
}

#[test]
fn a_failed_edit_leaves_the_record_and_ends_the_list() {
    let mut ui = build_network_ui(&crowd(1));
    let before = submenu_entries(&ui);
    assert!(!ui.settle(MenuOp::RemoveMember { index: 0 }, false));
    assert!(!ui.settle(MenuOp::RemoveToggle, false));
    assert_eq!(submenu_entries(&ui), before);
    assert!(ui.settle(MenuOp::RemoveMember { index: 0 }, true));
    assert_eq!(ui.members.len(), 1);
}

#[test]
fn a_trailer_that_cannot_be_taken_out_is_given_up() {
    let mut ui = build_network_ui(&crowd(20));
    assert!(!ui.settle(MenuOp::RemoveMore, false));
    assert_eq!(ui.more, None);
}

fn cfg() -> PollConfig {
    PollConfig { active: 3, idle: 300, unreachable: 30, active_window: 20 }
}

fn reachable(networks: Vec<NetworkStatus>) -> PollResult {
    PollResult::Reachable { active: true, networks }
}

/// A tray whose menu was built for these networks.
fn settled(networks: Vec<NetworkStatus>) -> Tray {
    let mut t = Tray::new(cfg());
    let r = t.on_poll(reachable(networks)).unwrap();
    t.on_rebuilt(r.structural, r.menu.network_uis);
    t
}

#[test]
fn a_tray_starts_without_a_daemon() {
    let t = Tray::new(cfg());
    assert!(!t.reachable && !t.active && t.networks.is_empty() && t.network_uis.is_empty());
    assert_eq!(t.last_structural, "false|");
    assert_eq!(t.status_line(), "tetron: daemon unreachable");
    assert_eq!(t.last_sent_interval, 300);
    assert_eq!(t.active_until, None);
}

#[test]
fn the_first_status_calls_for_a_rebuild() {
    let mut t = Tray::new(cfg());
    assert!(t.on_poll(PollResult::Unreachable).is_none());
    let r = t.on_poll(reachable(vec![network("b", true, &[]), network("a", true, &[])])).unwrap();
    assert_eq!(r.structural, "true|a,b");
    assert_eq!(r.log, "tetron-systray: structural change: 'false|' -> 'true|a,b'");
    assert_eq!(r.menu.network_uis.len(), 2);
    t.on_rebuilt(r.structural, r.menu.network_uis);
    assert_eq!(t.network_uis[0].key, "b");
    assert_eq!(t.status_line(), "tetron: active");
}

#[test]
fn churn_within_networks_needs_no_rebuild() {
    let mut t = settled(vec![network("a", true, &[]), network("b", true, &[])]);
    let again = vec![network("b", false, &[("x", 9, true)]), network("a", true, &[])];
    assert!(t.on_poll(reachable(again)).is_none());
    let kept: Vec<String> = t.network_uis.iter().map(|u| u.key.clone()).collect();
    assert_eq!(kept, ["a", "b"]);
    assert_eq!(t.member_edits(1).len(), 2);
    assert_eq!(t.chrome_edits(1).len(), 3);
    assert_eq!(t.chrome_edits(0).len(), 1);
}

#[test]
fn a_failed_rebuild_is_tried_again() {
    let mut t = Tray::new(cfg());
    assert!(t.on_poll(reachable(vec![])).is_some());
    assert!(t.on_poll(reachable(vec![])).is_some());
}

#[test]
fn a_rebuild_settles() {
    let mut t = settled(vec![network("a", true, &[])]);
    assert!(t.on_poll(reachable(vec![network("a", true, &[])])).is_none());
}

#[test]
fn losing_the_daemon_forgets_the_networks_but_not_the_activity() {
    let mut t = settled(vec![network("a", true, &[])]);
    let r = t.on_poll(PollResult::Unreachable).unwrap();
    assert_eq!(r.structural, "false|");
    assert!(t.active && t.networks.is_empty());
    assert!(t.member_edits(0).is_empty());
    assert!(t.chrome_edits(0).is_empty());
    assert_eq!(t.status_line(), "tetron: daemon unreachable");
}

#[test]
fn a_submenu_follows_the_network_of_its_name() {
    let mut t = settled(vec![network("a", true, &[]), network("b", true, &[])]);
    t.on_poll(reachable(vec![network("c", true, &[]), network("b", true, &[("x", 9, true)])]));
    assert!(t.member_edits(0).is_empty());
    let ops = t.member_edits(1);
    assert_eq!(ops.len(), 2);
    for op in ops {
        assert!(t.on_edit(1, op, true));
    }
    assert_eq!(t.network_uis[1].members[1].label, "x  10.0.0.9");
    assert!(!t.on_edit(1, MenuOp::RemoveMember { index: 0 }, false));
    assert_eq!(t.network_uis[1].members.len(), 2);
}

#[test]
fn the_icon_changes_only_with_the_state() {
    let mut t = Tray::new(cfg());
    assert_eq!(t.icon_update(), None);
    t.on_poll(reachable(vec![]));
    assert_eq!(t.icon_update(), Some(icon_for(true, true)));
    assert_eq!(t.icon_update(), None);
    t.on_poll(PollResult::Reachable { active: false, networks: vec![] });
    assert_eq!(t.icon_update(), Some(icon_for(true, false)));
    t.on_poll(PollResult::Unreachable);
    assert_eq!(t.icon_update(), Some(icon_for(false, false)));
    assert_eq!(t.last_icon_key, (false, false));
}

#[test]
fn using_the_menu_opens_the_window_and_polls_at_once() {
    let mut t = Tray::new(cfg());
    assert_eq!(t.on_use(Moment { nanos: 7 }), PollCmd::Now);
    assert_eq!(t.active_until, Some(Moment { nanos: 7 + 20 * NANOS_PER_SEC }));
}

#[test]
fn the_poller_is_told_only_what_is_new() {
    let mut t = Tray::new(cfg());
    assert_eq!(t.retarget(300), None);
    assert_eq!(t.retarget(3), Some(PollCmd::SetInterval { secs: 3 }));
    assert_eq!(t.retarget(3), None);
    assert_eq!(t.last_sent_interval, 3);
}

#[test]
fn clicks_and_hovers_announce_the_menu() {
    assert!(announces_menu(TrayEvent::Click));
    assert!(announces_menu(TrayEvent::DoubleClick));
    assert!(announces_menu(TrayEvent::Enter));
    assert!(!announces_menu(TrayEvent::Move));
    assert!(!announces_menu(TrayEvent::Leave));
    assert!(!announces_menu(TrayEvent::Other));
}

#[test]
fn only_the_quit_item_quits() {
    assert_eq!(on_menu_event("quit"), MenuReaction::Quit);
    assert_eq!(
        on_menu_event("standby:quit"),
        MenuReaction::Click {
            action: ClickAction::Send {
                request: Request::Standby { network: Some("quit".to_string()) }
            }
        }
    );
    assert_eq!(on_menu_event("Quit"), MenuReaction::Click { action: ClickAction::Nothing });
}

#[test]
fn the_poller_follows_what_it_is_told() {
    let mut t = Tray::new(cfg());
    let mut p = Poller { interval: t.last_sent_interval };
    for want in [300, 3, 3, 30, 300] {
        if let Some(cmd) = t.retarget(want) {
            p.on_wake(Wake::Command { cmd });
        }
        assert_eq!(p.interval, want);
    }
}

#[test]
fn the_recorded_fingerprint_is_that_of_the_submenus() {
    let mut t = settled(vec![network("b", true, &[]), network("a", true, &[])]);
    assert_eq!(t.last_structural, "true|a,b");
    t.on_poll(reachable(vec![network("c", true, &[])]));
    assert_eq!(t.last_structural, "true|a,b");
    assert_eq!(t.network_uis.len(), 2);
    t.on_poll(PollResult::Unreachable);
    assert!(t.networks.is_empty());
    assert_eq!(t.last_structural, "true|a,b");
}

#[test]
fn a_poll_brings_every_submenu_up_to_date() {
    let mut t = settled(vec![network("a", true, &[("x", 2, true)]), network("b", true, &[])]);
    let status = || vec![network("b", false, &[("y", 3, true)]), network("a", false, &[])];
    assert!(t.on_poll(reachable(status())).is_none());
    for index in 0..2 {
        for op in t.member_edits(index) {
            assert!(t.on_edit(index, op, true));
        }
        for op in t.chrome_edits(index) {
            assert!(t.on_edit(index, op, true));
        }
    }
    assert_eq!(t.network_uis[0], build_network_ui(&status()[1]));
    assert_eq!(t.network_uis[1], build_network_ui(&status()[0]));
}

#[test]
fn a_change_of_networks_is_noticed_whatever_they_are_called() {
    let mut t = settled(vec![network("a", true, &[]), network("b", true, &[])]);
    let r = t.on_poll(reachable(vec![network("a,b", true, &[])])).unwrap();
    assert_eq!(r.menu.network_uis.len(), 1);
    let mut t = settled(vec![]);
    assert!(t.on_poll(reachable(vec![network("", true, &[])])).is_some());
}

#[test]
fn using_the_menu_now_goes_by_the_clock() {
    let clock = Clock::start();
    let mut t = Tray::new(PollConfig { active_window: u64::MAX, ..cfg() });
    let before = clock.now().nanos;
    assert_eq!(t.on_use_now(&clock), PollCmd::Now);
    let after = clock.now().nanos;
    let window = i128::from(u64::MAX) * NANOS_PER_SEC;
    let until = t.active_until.unwrap().nanos;
    assert!(before + window <= until && until <= after + window);
}
