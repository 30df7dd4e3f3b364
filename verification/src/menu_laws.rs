//! What the menu that is built from scratch guarantees.
use crate::actions::member_id;
use crate::member_laws::{law_every_member_has_one_row, law_online_rows_come_first};
use crate::members::{desired_rows, dotted, peer_row, self_row, NetworkView, PeerView, RowView};
use crate::menu::{
    built_ui, entry_views, header_text, layout, member_views, menu_entries, menu_networks, more_of,
    more_text, online_count, shown_rows, status_text, top_views, ui_views, Entry, EntryView,
    MemberRow, NetworkUi, TopEntry, TopView, UiView,
};
use crate::order::text_le;
use crate::text::dec;
use vstd::prelude::*;

verus! {

// ---------------------------------------------------------------------------
// Texts
// ---------------------------------------------------------------------------

/// The status line tells whether the daemon can be reached, and only then
/// whether it is active.
pub proof fn law_status_line(active: bool)
    ensures
        status_text(false, active) == "tetron: daemon unreachable"@,
        status_text(true, true) == "tetron: active"@,
        status_text(true, false) == "tetron: standby"@,
{
}

/// The title of a submenu names the network, counts its connected peers and its
/// members, and says so where the network is on standby.
pub proof fn law_title(net: NetworkView)
    ensures
        net.active ==> header_text(net) == net.network + "  ("@ + dec(online_count(net.peers))
            + "/"@ + dec(net.member_count) + ")"@,
        !net.active ==> header_text(net) == net.network + "  ("@ + dec(online_count(net.peers))
            + "/"@ + dec(net.member_count) + ")  ·standby·"@,
{
    reveal_strlit(")");
    reveal_strlit("  ·standby·");
    reveal_strlit(")  ·standby·");
    assert(")  ·standby·"@ =~= ")"@ + "  ·standby·"@);
    if net.active {
        assert(header_text(net) =~= net.network + "  ("@ + dec(online_count(net.peers)) + "/"@
            + dec(net.member_count) + ")"@);
    } else {
        assert(header_text(net) =~= net.network + "  ("@ + dec(online_count(net.peers)) + "/"@
            + dec(net.member_count) + ")  ·standby·"@);
    }
}

/// Each connected peer counts once, and no other does.
pub proof fn law_online_count(peers: Seq<PeerView>, p: PeerView)
    ensures
        online_count(Seq::empty()) == 0,
        p.connected ==> online_count(peers.push(p)) == online_count(peers) + 1,
        !p.connected ==> online_count(peers.push(p)) == online_count(peers),
{
    reveal(Seq::filter);
    assert(peers.push(p).drop_last() == peers);
}

/// The trailer stands exactly where a network has more than ten members, and
/// counts those that are left out.
pub proof fn law_trailer(net: NetworkView, n: nat)
    ensures
        more_text(n) == "…and "@ + dec(n) + " more (open webui)"@,
        net.peers.len() + 1 <= 10 ==> more_of(net) is None,
        net.peers.len() + 1 > 10 ==> more_of(net) == Some(
            "…and "@ + dec((net.peers.len() + 1 - 10) as nat) + " more (open webui)"@,
        ),
{
    law_every_member_has_one_row(net);
}

// ---------------------------------------------------------------------------
// Submenus
// ---------------------------------------------------------------------------

/// The rows that a submenu shows are the first ten of the network's rows, or all
/// of them where there are no more.
pub proof fn law_first_rows_are_shown(net: NetworkView)
    ensures
        shown_rows(net).len() <= 10,
        shown_rows(net).len() <= net.peers.len() + 1,
        shown_rows(net).len() == 10 || shown_rows(net).len() == net.peers.len() + 1,
        forall|i: int|
            0 <= i < shown_rows(net).len() ==> #[trigger] shown_rows(net)[i] == desired_rows(
                net,
            )[i],
{
    law_every_member_has_one_row(net);
}

/// No row that is left out comes before one that is shown: where a machine that
/// is online is left out, no offline one is shown, and among machines in the same
/// state those with the smaller labels are shown.
pub proof fn law_rows_left_out_come_later(net: NetworkView, i: int, j: int)
    requires
        0 <= i < shown_rows(net).len(),
        shown_rows(net).len() <= j < desired_rows(net).len(),
    ensures
        desired_rows(net)[j].online ==> shown_rows(net)[i].online,
        shown_rows(net)[i].online == desired_rows(net)[j].online ==> text_le(
            shown_rows(net)[i].label,
            desired_rows(net)[j].label,
        ),
{
    law_first_rows_are_shown(net);
    law_online_rows_come_first(net, i, j);
}

proof fn lemma_filter_len_of_multiset<T>(a: Seq<T>, b: Seq<T>, p: spec_fn(T) -> bool)
    requires
        a.to_multiset() == b.to_multiset(),
    ensures
        a.filter(p).len() == b.filter(p).len(),
    decreases a.len(),
{
    broadcast use vstd::seq_lib::group_to_multiset_ensures;

    reveal(Seq::filter);
    assert(a.len() == b.len()) by {
        assert(a.to_multiset().len() == a.len());
        assert(b.to_multiset().len() == b.len());
    }
    if a.len() > 0 {
        let x = a.last();
        assert(a.contains(a[a.len() - 1]));
        assert(b.to_multiset().contains(x));
        let j = choose|j: int| 0 <= j < b.len() && b[j] == x;
        let u = a.drop_last();
        let v = b.remove(j);
        let one = seq![x];
        assert(u.push(x) == a);
        assert(u.to_multiset() =~= a.to_multiset().remove(x));
        assert(v.to_multiset() =~= b.to_multiset().remove(x));
        lemma_filter_len_of_multiset(u, v, p);
        let front = b.take(j);
        let back = b.skip(j + 1);
        assert(b =~= front + one + back);
        assert(v =~= front + back);
        Seq::filter_distributes_over_add(front + one, back, p);
        Seq::filter_distributes_over_add(front, one, p);
        Seq::filter_distributes_over_add(front, back, p);
        assert(one.drop_last() == Seq::<T>::empty());
        assert(Seq::<T>::empty().filter(p).len() == 0);
        assert(one.filter(p).len() == (if p(x) {
            1nat
        } else {
            0nat
        }));
    } else {
        assert(a == b);
    }
}

proof fn lemma_online_rows(net: NetworkView)
    ensures
        desired_rows(net).filter(|r: RowView| r.online).len() == online_count(net.peers) + 1,
{
    let p = |r: RowView| r.online;
    let all = seq![self_row(net)] + Seq::new(
        net.peers.len(),
        |i: int| peer_row(net.peers[i]),
    );
    law_every_member_has_one_row(net);
    lemma_filter_len_of_multiset(desired_rows(net), all, p);
    lemma_online_prefix(net, net.peers.len() as int);
    assert(all.take(net.peers.len() as int + 1) =~= all);
    assert(net.peers.take(net.peers.len() as int) =~= net.peers);
}

proof fn lemma_online_prefix(net: NetworkView, k: int)
    requires
        0 <= k <= net.peers.len(),
    ensures
        (seq![self_row(net)] + Seq::new(net.peers.len(), |i: int| peer_row(net.peers[i]))).take(
            k + 1,
        ).filter(|r: RowView| r.online).len() == online_count(net.peers.take(k)) + 1,
    decreases k,
{
    reveal(Seq::filter);
    let p = |r: RowView| r.online;
    let all = seq![self_row(net)] + Seq::new(
        net.peers.len(),
        |i: int| peer_row(net.peers[i]),
    );
    if k == 0 {
        assert(all.take(1).drop_last() =~= Seq::<RowView>::empty());
        assert(all.take(1).last() == self_row(net));
        assert(Seq::<RowView>::empty().filter(p).len() == 0);
        assert(net.peers.take(0) =~= Seq::<PeerView>::empty());
        law_online_count(net.peers, net.peers[0]);
    } else {
        lemma_online_prefix(net, k - 1);
        let q = net.peers[k - 1];
        assert(all.take(k + 1).drop_last() =~= all.take(k));
        assert(all.take(k + 1).last() == peer_row(q));
        assert(net.peers.take(k) =~= net.peers.take(k - 1).push(q));
        law_online_count(net.peers.take(k - 1), q);
    }
}

/// Where at least ten members are online, this machine included, no offline one is
/// shown.
pub proof fn law_ten_online_members_fill_the_submenu(net: NetworkView, i: int)
    requires
        online_count(net.peers) >= 9,
        0 <= i < shown_rows(net).len(),
    ensures
        shown_rows(net).len() == 10,
        shown_rows(net)[i].online,
{
    let r = desired_rows(net);
    let p = |x: RowView| x.online;
    law_first_rows_are_shown(net);
    law_every_member_has_one_row(net);
    lemma_online_rows(net);
    r.lemma_filter_len(p);
    assert(r.len() >= 10);
    if !r[i].online {
        let front = r.take(i);
        let back = r.skip(i);
        assert forall|j: int| 0 <= j < back.len() implies !p(#[trigger] back[j]) by {
            if j > 0 {
                law_online_rows_come_first(net, i, i + j);
            }
        }
        back.lemma_all_neg_filter_empty(p);
        assert(r =~= front + back);
        Seq::filter_distributes_over_add(front, back, p);
        front.lemma_filter_len(p);
    }
}

/// A submenu that is built holds the first rows of its network, as they are, the
/// trailer and the title, and a toggle for the present state.
pub proof fn law_built_submenu(net: NetworkView)
    ensures
        built_ui(net).key == net.network,
        built_ui(net).title == header_text(net),
        built_ui(net).more == more_of(net),
        built_ui(net).active == net.active,
        built_ui(net).toggle_shown,
        built_ui(net).members.len() == shown_rows(net).len(),
        forall|i: int|
            0 <= i < built_ui(net).members.len() ==> {
                &&& (#[trigger] built_ui(net).members[i]).ip == desired_rows(net)[i].ip
                &&& built_ui(net).members[i].label == desired_rows(net)[i].label
            },
{
    law_first_rows_are_shown(net);
}

/// A submenu lists its rows in order, each of which copies its own address, then
/// the trailer, which cannot be clicked, then a separator, and the toggle.
pub proof fn law_layout(ui: UiView)
    ensures
        ({
            let l = layout(ui);
            let rows = ui.members.len() as int;
            let more = if ui.more is Some {
                1int
            } else {
                0int
            };
            let toggle = if ui.toggle_shown {
                1int
            } else {
                0int
            };
            &&& l.len() == rows + more + 1 + toggle
            &&& forall|i: int|
                0 <= i < rows ==> #[trigger] l[i] == (EntryView::Item {
                    id: Some("copy_member_ip:"@ + dotted(ui.members[i].ip)),
                    text: ui.members[i].label,
                })
            &&& ui.more matches Some(text) ==> l[rows] == (EntryView::Item { id: None, text })
            &&& l[rows + more] == EntryView::Separator
            &&& ui.toggle_shown && ui.active ==> l[rows + more + 1] == (EntryView::Item {
                id: Some("standby:"@ + ui.key),
                text: "Standby \""@ + ui.key + "\""@,
            })
            &&& ui.toggle_shown && !ui.active ==> l[rows + more + 1] == (EntryView::Item {
                id: Some("resume:"@ + ui.key),
                text: "Resume \""@ + ui.key + "\""@,
            })
        }),
{
    let l = layout(ui);
    assert forall|i: int| 0 <= i < ui.members.len() implies #[trigger] l[i] == (EntryView::Item {
        id: Some("copy_member_ip:"@ + dotted(ui.members[i].ip)),
        text: ui.members[i].label,
    }) by {
        assert(member_id(ui.members[i].ip) == "copy_member_ip:"@ + dotted(ui.members[i].ip));
    }
}

// ---------------------------------------------------------------------------
// The whole menu
// ---------------------------------------------------------------------------

/// While the daemon cannot be reached, the menu is the status line and the way
/// out.
pub proof fn law_menu_of_unreachable_daemon(active: bool, networks: nat)
    ensures
        menu_entries(false, active, networks) == seq![
            TopView::Status { text: "tetron: daemon unreachable"@ },
            TopView::Separator,
            TopView::Action { id: "quit"@, text: "Quit"@ },
        ],
{
    assert(menu_entries(false, active, networks) =~= seq![
        TopView::Status { text: "tetron: daemon unreachable"@ },
        TopView::Separator,
        TopView::Action { id: "quit"@, text: "Quit"@ },
    ]);
}

/// While the daemon can be reached, the menu lists every network exactly once,
/// in the daemon's order, right below the status line, and no other.
pub proof fn law_menu_lists_every_network_once(active: bool, networks: nat)
    ensures
        ({
            let m = menu_entries(true, active, networks);
            &&& m.len() >= networks + 2
            &&& forall|i: int|
                0 <= i < networks ==> #[trigger] m[i + 2] == (TopView::Network { index: i })
            &&& forall|k: int|
                0 <= k < m.len() && (#[trigger] m[k]) is Network ==> 2 <= k < networks + 2
                    && m[k] == (TopView::Network { index: k - 2 })
        }),
{
}

/// While the daemon can be reached, the menu starts with the status line, and
/// what concerns all networks stands below them.
pub proof fn law_menu_around_networks(active: bool, networks: nat)
    ensures
        ({
            let m = menu_entries(true, active, networks);
            let n = 2 + networks + (if networks > 0 {
                1int
            } else {
                0int
            });
            &&& m.len() == n + 6
            &&& active ==> m[0] == (TopView::Status { text: "tetron: active"@ })
            &&& !active ==> m[0] == (TopView::Status { text: "tetron: standby"@ })
            &&& m[1] == TopView::Separator
            &&& networks > 0 ==> m[2 + networks as int] == TopView::Separator
            &&& m[n] == (TopView::Action { id: "resume_all"@, text: "Resume all"@ })
            &&& m[n + 1] == (TopView::Action { id: "standby_all"@, text: "Standby all"@ })
            &&& m[n + 2] == TopView::Separator
            &&& m[n + 3] == (TopView::Action { id: "open_webui"@, text: "Open webui"@ })
            &&& m[n + 4] == TopView::Separator
            &&& m[n + 5] == (TopView::Action { id: "quit"@, text: "Quit"@ })
        }),
{
}

/// The submenu with an index is that of the network with this index.
pub proof fn law_submenus_are_those_of_the_networks(networks: Seq<NetworkView>)
    ensures
        menu_networks(true, networks).len() == networks.len(),
        forall|i: int|
            0 <= i < networks.len() ==> #[trigger] menu_networks(true, networks)[i] == built_ui(
                networks[i],
            ),
        menu_networks(false, networks).len() == 0,
{
}

/// The models of the parts of a menu hold what the parts hold.
pub proof fn law_menu_models(ui: NetworkUi, row: MemberRow, e: Entry, top: TopEntry)
    ensures
        row@.ip == row.ip,
        row@.label == row.label@,
        ui@.key == ui.key@,
        ui@.title == ui.title@,
        ui@.members.len() == ui.members.len(),
        forall|i: int| 0 <= i < ui.members.len() ==> #[trigger] ui@.members[i] == ui.members@[i]@,
        ui@.more is Some == ui.more is Some,
        ui.more matches Some(text) ==> ui@.more == Some(text@),
        ui@.active == ui.active,
        ui@.toggle_shown == ui.toggle_shown,
        e is Separator == e@ is Separator,
        e matches Entry::Item { id, text } ==> {
            &&& e@ matches EntryView::Item { id: i, text: t }
            &&& t == text@
            &&& i is Some == id is Some
            &&& id matches Some(x) ==> i == Some(x@)
        },
        top is Separator == top@ is Separator,
        top matches TopEntry::Status { text } ==> top@ == (TopView::Status { text: text@ }),
        top matches TopEntry::Network { index } ==> top@ == (TopView::Network {
            index: index as int,
        }),
        top matches TopEntry::Action { id, text } ==> top@ == (TopView::Action {
            id: id@,
            text: text@,
        }),
{
}

/// The models of a list are those of its elements, in their order.
pub proof fn law_menu_list_models(
    rows: Seq<MemberRow>,
    uis: Seq<NetworkUi>,
    entries: Seq<Entry>,
    tops: Seq<TopEntry>,
)
    ensures
        member_views(rows).len() == rows.len(),
        forall|i: int| 0 <= i < rows.len() ==> #[trigger] member_views(rows)[i] == rows[i]@,
        ui_views(uis).len() == uis.len(),
        forall|i: int| 0 <= i < uis.len() ==> #[trigger] ui_views(uis)[i] == uis[i]@,
        entry_views(entries).len() == entries.len(),
        forall|i: int| 0 <= i < entries.len() ==> #[trigger] entry_views(entries)[i] == entries[i]@,
        top_views(tops).len() == tops.len(),
        forall|i: int| 0 <= i < tops.len() ==> #[trigger] top_views(tops)[i] == tops[i]@,
{
}

} // verus!
