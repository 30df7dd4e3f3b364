//! What the tray guarantees over several events.
use crate::fingerprint::{
    fingerprint, law_fingerprint_ignores_order, law_fingerprint_tells_changes, names,
};
use crate::ipc_client::PollView;
use crate::members::{network_views, NetworkView};
use crate::menu::{built_ui, menu_networks, shown_rows, ui_views, UiView};
use crate::poll::{interval_after, PollCmd, PollConfig, Wake};
use crate::reconcile::{
    applied, chrome_ops, member_ops, reconciled, reconciled_members, run, OpView,
};
use crate::submenu_laws::{law_chrome_edits, law_member_edits_reconcile};
use crate::tray::{
    network_named, polled, present_fingerprint, rebuild_line, retarget_cmd, started, status_for,
    Tray, TrayView,
};
use vstd::prelude::*;

verus! {

/// The names of the networks that the menu has submenus for.
pub open spec fn keys(uis: Seq<UiView>) -> Seq<Seq<char>> {
    uis.map_values(|u: UiView| u.key)
}

/// What holds of every tray: an unreachable daemon has no networks, and the
/// recorded fingerprint is that of the submenus that the menu has.
pub open spec fn well_formed(t: TrayView) -> bool {
    &&& !t.reachable ==> t.networks.len() == 0
    &&& exists|r: bool| t.last_structural == #[trigger] fingerprint(r, keys(t.network_uis))
}

/// The tray once a menu was built anew from what it knows.
pub open spec fn rebuilt(t: TrayView) -> TrayView {
    TrayView {
        last_structural: present_fingerprint(t),
        network_uis: menu_networks(t.reachable, t.networks),
        ..t
    }
}

/// The tray once an edit of a submenu is done.
pub open spec fn after_edit(t: TrayView, index: int, op: OpView) -> TrayView {
    TrayView {
        network_uis: t.network_uis.update(index, applied(t.network_uis[index], op)),
        ..t
    }
}

/// Every tray is well formed from the start.
pub proof fn law_started_is_well_formed(cfg: PollConfig)
    ensures
        well_formed(started(cfg)),
{
    assert(keys(started(cfg).network_uis) == Seq::<Seq<char>>::empty());
    assert(started(cfg).last_structural == fingerprint(false, keys(started(cfg).network_uis)));
}

/// A poll and a rebuild keep a tray well formed.
pub proof fn law_polls_keep_well_formed(t: TrayView, result: PollView)
    requires
        well_formed(t),
    ensures
        well_formed(polled(t, result)),
        well_formed(rebuilt(t)),
{
    let r = choose|r: bool| t.last_structural == #[trigger] fingerprint(r, keys(t.network_uis));
    let u = polled(t, result);
    assert(u.last_structural == fingerprint(r, keys(u.network_uis)));
    lemma_rebuilt_keys(t);
    assert(rebuilt(t).last_structural == fingerprint(t.reachable, keys(rebuilt(t).network_uis)));
}

/// An edit of a submenu keeps a tray well formed.
pub proof fn law_edits_keep_well_formed(t: TrayView, index: int, op: OpView)
    requires
        well_formed(t),
        0 <= index < t.network_uis.len(),
    ensures
        well_formed(after_edit(t, index, op)),
{
    let r = choose|r: bool| t.last_structural == #[trigger] fingerprint(r, keys(t.network_uis));
    let u = after_edit(t, index, op);
    assert(keys(u.network_uis) =~= keys(t.network_uis));
    assert(u.last_structural == fingerprint(r, keys(u.network_uis)));
}

proof fn lemma_rebuilt_keys(t: TrayView)
    requires
        !t.reachable ==> t.networks.len() == 0,
    ensures
        keys(rebuilt(t).network_uis) == names(t.networks),
{
    assert(keys(rebuilt(t).network_uis) =~= names(t.networks));
}

/// Unless a rebuild is called for, the menu has one submenu for each network
/// that the daemon reports, and no other.
pub proof fn law_menu_lists_networks(t: TrayView)
    requires
        well_formed(t),
        present_fingerprint(t) == t.last_structural,
    ensures
        keys(t.network_uis).to_multiset() == names(t.networks).to_multiset(),
{
    let r = choose|r: bool| t.last_structural == #[trigger] fingerprint(r, keys(t.network_uis));
    law_fingerprint_tells_changes(t.reachable, names(t.networks), r, keys(t.network_uis));
}

/// What changes within the networks never calls for a rebuild: a poll that
/// finds networks of the same names, in whatever order, leaves the menu up to
/// date.
pub proof fn law_churn_needs_no_rebuild(t: TrayView, active: bool, networks: Seq<NetworkView>)
    requires
        t.reachable,
        present_fingerprint(t) == t.last_structural,
        names(networks).to_multiset() == names(t.networks).to_multiset(),
    ensures
        ({
            let u = polled(t, PollView::Reachable { active, networks });
            present_fingerprint(u) == u.last_structural
        }),
{
    law_fingerprint_ignores_order(true, names(networks), names(t.networks));
}

/// When the daemon becomes reachable or stops being so, the menu is rebuilt.
pub proof fn law_reachability_calls_for_rebuild(t: TrayView, result: PollView)
    requires
        present_fingerprint(t) == t.last_structural,
        polled(t, result).reachable != t.reachable,
    ensures
        present_fingerprint(polled(t, result)) != t.last_structural,
{
    reveal_strlit("true");
    reveal_strlit("false");
    let u = polled(t, result);
    assert(present_fingerprint(t)[0] == (if t.reachable {
        't'
    } else {
        'f'
    }));
    assert(present_fingerprint(u)[0] == (if u.reachable {
        't'
    } else {
        'f'
    }));
}

/// A poll calls for a rebuild exactly when the daemon became reachable or
/// stopped being so, or reports other networks than before.
pub proof fn law_rebuild_follows_networks(t: TrayView, result: PollView)
    requires
        present_fingerprint(t) == t.last_structural,
    ensures
        ({
            let u = polled(t, result);
            present_fingerprint(u) != u.last_structural <==> u.reachable != t.reachable
                || names(u.networks).to_multiset() != names(t.networks).to_multiset()
        }),
{
    let u = polled(t, result);
    law_fingerprint_tells_changes(u.reachable, names(u.networks), t.reachable, names(t.networks));
}

/// A rebuild that failed is called for again by the next poll that finds the
/// same.
pub proof fn law_failed_rebuild_is_retried(t: TrayView, result: PollView)
    requires
        present_fingerprint(polled(t, result)) != t.last_structural,
    ensures
        ({
            let u = polled(t, result);
            present_fingerprint(polled(u, result)) != u.last_structural
        }),
{
    assert(polled(polled(t, result), result) =~= polled(t, result));
}

/// Right after a rebuild none is called for, and each submenu is the one built
/// from the status of its network.
pub proof fn law_rebuild_settles(t: TrayView)
    requires
        t.reachable,
    ensures
        present_fingerprint(rebuilt(t)) == rebuilt(t).last_structural,
        rebuilt(t).network_uis.len() == t.networks.len(),
        forall|i: int|
            0 <= i < t.networks.len() ==> #[trigger] rebuilt(t).network_uis[i] == built_ui(
                t.networks[i],
            ),
{
}

/// A submenu is only ever brought up to date with the status of the network it
/// was made for.
pub proof fn law_status_is_of_that_network(t: TrayView, ui: UiView)
    ensures
        status_for(t, ui) matches Some(net) ==> net.network == ui.key && t.networks.contains(net),
{
    lemma_network_named(t.networks, ui.key);
}

proof fn lemma_network_named(networks: Seq<NetworkView>, name: Seq<char>)
    ensures
        network_named(networks, name) matches Some(net) ==> net.network == name
            && networks.contains(net),
        names(networks).contains(name) ==> network_named(networks, name) is Some,
    decreases networks.len(),
{
    if networks.len() > 0 {
        let rest = networks.skip(1);
        lemma_network_named(rest, name);
        if networks[0].network == name {
            assert(networks.contains(networks[0]));
        } else {
            if network_named(rest, name) is Some {
                let net = network_named(rest, name)->Some_0;
                let i = choose|i: int| 0 <= i < rest.len() && rest[i] == net;
                assert(networks[i + 1] == net);
            }
            if names(networks).contains(name) {
                let i = choose|i: int| 0 <= i < names(networks).len() && names(networks)[i] == name;
                assert(names(rest)[i - 1] == name);
                assert(names(rest).contains(name));
            }
        }
    }
}

/// While the daemon is reachable and no rebuild is called for, every submenu
/// finds the status of its network, so that each poll brings all of them up to
/// date.
pub proof fn law_every_submenu_finds_its_status(t: TrayView, i: int)
    requires
        t.reachable,
        0 <= i < t.network_uis.len(),
        well_formed(t),
        present_fingerprint(t) == t.last_structural,
    ensures
        status_for(t, t.network_uis[i]) is Some,
{
    broadcast use vstd::seq_lib::group_to_multiset_ensures;

    law_menu_lists_networks(t);
    let k = keys(t.network_uis);
    assert(k.contains(k[i]));
    assert(names(t.networks).to_multiset().contains(k[i]));
    lemma_network_named(t.networks, t.network_uis[i].key);
}

/// A poll that calls for no rebuild brings every submenu up to date: making its
/// edits leaves the submenu that would be built from the present status of its
/// network, but for the order of the rows.
pub proof fn law_poll_brings_submenus_up_to_date(t: TrayView, i: int)
    requires
        t.reachable,
        0 <= i < t.network_uis.len(),
        well_formed(t),
        present_fingerprint(t) == t.last_structural,
        t.network_uis[i].toggle_shown,
    ensures
        ({
            let ui = t.network_uis[i];
            let net = status_for(t, ui)->Some_0;
            let mid = run(ui, member_ops(ui, net));
            let end = run(mid, chrome_ops(mid, net));
            &&& status_for(t, ui) is Some
            &&& net.network == ui.key
            &&& end == UiView {
                members: reconciled_members(ui.members, shown_rows(net)),
                ..built_ui(net)
            }
        }),
{
    let ui = t.network_uis[i];
    law_every_submenu_finds_its_status(t, i);
    law_status_is_of_that_network(t, ui);
    let net = status_for(t, ui)->Some_0;
    law_member_edits_reconcile(ui, net);
    let mid = reconciled(ui, net);
    law_chrome_edits(mid, net);
}

/// The poller is always on the interval that it was last told: a poller that
/// is, and gets the command for the next interval, is on that one.
pub proof fn law_poller_follows(last_sent: u64, want: u64)
    ensures
        match retarget_cmd(last_sent, want) {
            Some(cmd) => interval_after(last_sent, Wake::Command { cmd }) == want,
            None => last_sent == want,
        },
{
}

/// A poll that reaches the daemon takes over what it reports; one that does not
/// leaves no network, and the activity as it was last known. Nothing else
/// changes.
pub proof fn law_poll_takes_over_what_is_reported(
    t: TrayView,
    active: bool,
    networks: Seq<NetworkView>,
)
    ensures
        polled(t, PollView::Reachable { active, networks }) == (TrayView {
            reachable: true,
            active,
            networks,
            ..t
        }),
        polled(t, PollView::Unreachable) == (TrayView {
            reachable: false,
            networks: Seq::empty(),
            ..t
        }),
{
}

/// A tray starts without a daemon, on the idle interval, with a menu that was not
/// used.
pub proof fn law_start(cfg: PollConfig)
    ensures
        started(cfg).cfg == cfg,
        !started(cfg).reachable,
        !started(cfg).active,
        started(cfg).networks.len() == 0,
        started(cfg).network_uis.len() == 0,
        started(cfg).last_icon_key == (false, false),
        started(cfg).active_until is None,
        started(cfg).last_sent_interval == cfg.idle,
        started(cfg).last_structural == present_fingerprint(started(cfg)),
{
    assert(names(started(cfg).networks) =~= Seq::<Seq<char>>::empty());
}

/// The log line of a rebuild names both fingerprints.
pub proof fn law_rebuild_line(a: Seq<char>, b: Seq<char>)
    ensures
        rebuild_line(a, b) == "tetron-systray: structural change: '"@ + a + "' -> '"@ + b + "'"@,
{
}

/// The status of a submenu is that of the first network with its name; while the
/// daemon cannot be reached, or reports none of that name, there is none.
pub proof fn law_first_network_of_the_name(t: TrayView, ui: UiView, i: int)
    ensures
        !t.reachable ==> status_for(t, ui) is None,
        t.reachable && 0 <= i < t.networks.len() && t.networks[i].network == ui.key && (forall|
            j: int,
        |
            0 <= j < i ==> (#[trigger] t.networks[j]).network != ui.key) ==> status_for(t, ui)
            == Some(t.networks[i]),
        (forall|j: int|
            0 <= j < t.networks.len() ==> (#[trigger] t.networks[j]).network != ui.key)
            ==> status_for(t, ui) is None,
{
    lemma_first_named(t.networks, ui.key, i);
}

proof fn lemma_first_named(networks: Seq<NetworkView>, name: Seq<char>, i: int)
    ensures
        0 <= i < networks.len() && networks[i].network == name && (forall|j: int|
            0 <= j < i ==> (#[trigger] networks[j]).network != name) ==> network_named(
            networks,
            name,
        ) == Some(networks[i]),
        (forall|j: int| 0 <= j < networks.len() ==> (#[trigger] networks[j]).network != name)
            ==> network_named(networks, name) is None,
    decreases networks.len(),
{
    if networks.len() > 0 {
        let rest = networks.skip(1);
        lemma_first_named(rest, name, i - 1);
        assert forall|j: int| 0 <= j < rest.len() implies #[trigger] rest[j] == networks[j
            + 1] by {}
        assert(networks[0] == networks[0]);
    }
}

/// The poller is told an interval exactly where it is on another.
pub proof fn law_poller_is_told_what_is_new(last_sent: u64, want: u64)
    ensures
        want == last_sent ==> retarget_cmd(last_sent, want) is None,
        want != last_sent ==> retarget_cmd(last_sent, want) == Some(
            PollCmd::SetInterval { secs: want },
        ),
{
}

/// The model of a tray holds what the tray holds.
pub proof fn law_tray_model(t: Tray)
    ensures
        t@.cfg == t.cfg,
        t@.reachable == t.reachable,
        t@.active == t.active,
        t@.networks == network_views(t.networks@),
        t@.last_structural == t.last_structural@,
        t@.network_uis == ui_views(t.network_uis@),
        t@.last_icon_key == t.last_icon_key,
        t@.active_until == t.active_until,
        t@.last_sent_interval == t.last_sent_interval,
{
}

} // verus!
