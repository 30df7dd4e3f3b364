//! The tray menu: its texts, the submenu of each network, and the whole menu
//! as it is built from scratch.
use crate::actions::{
    clicked, law_global_clicks, law_member_click, law_toggle_click, make_member_id, make_toggle_id,
    make_toggle_text, member_id, toggle_id, toggle_text, ClickView, RequestView,
};
use crate::members::{
    compute_desired_rows, desired_rows, dotted, network_views, row_views, text_of, Ipv4,
    NetworkStatus, NetworkView, PeerStatus, PeerView, Row, RowView,
};
use crate::text::{dec, push_dec};
use vstd::prelude::*;

verus! {

/// The most member rows that the submenu of one network shows.
pub const MAX_MEMBER_ROWS: usize = 10;

// ---------------------------------------------------------------------------
// Texts
// ---------------------------------------------------------------------------

/// The status line at the top of the menu.
pub open spec fn status_text(reachable: bool, active: bool) -> Seq<char> {
    if !reachable {
        "tetron: daemon unreachable"@
    } else if active {
        "tetron: active"@
    } else {
        "tetron: standby"@
    }
}

/// The text that the status line at the top of the menu is set to.
pub fn update_status_item(reachable: bool, active: bool) -> (r: String)
    ensures
        r@ == status_text(reachable, active),
{
    if !reachable {
        "tetron: daemon unreachable".to_owned()
    } else if active {
        "tetron: active".to_owned()
    } else {
        "tetron: standby".to_owned()
    }
}

/// How many peers have a connection.
pub open spec fn online_count(peers: Seq<PeerView>) -> nat {
    peers.filter(|p: PeerView| p.connected).len()
}

/// The title of the submenu of a network.
pub open spec fn header_text(net: NetworkView) -> Seq<char> {
    net.network + "  ("@ + dec(online_count(net.peers)) + "/"@ + dec(net.member_count) + ")"@ + (
    if net.active {
        Seq::empty()
    } else {
        "  ·standby·"@
    })
}

/// The trailer that stands for the member rows that are not shown.
pub open spec fn more_text(remaining: nat) -> Seq<char> {
    "…and "@ + dec(remaining) + " more (open webui)"@
}

fn count_online(peers: &Vec<PeerStatus>) -> (n: usize)
    ensures
        n == online_count(peers@.map_values(|p: PeerStatus| p@)),
{
    let mut n: usize = 0;
    let ghost all = peers@.map_values(|p: PeerStatus| p@);
    assert(online_count(all.take(0)) == 0) by {
        reveal(Seq::filter);
    }
    for i in 0..peers.len()
        invariant
            all == peers@.map_values(|p: PeerStatus| p@),
            n == online_count(all.take(i as int)),
            n <= i,
    {
        if peers[i].connected {
            n = n + 1;
        }
        proof {
            reveal(Seq::filter);
            assert(all.take(i + 1).drop_last() == all.take(i as int));
            assert(all.take(i + 1).last() == peers@[i as int]@);
        }
    }
    assert(all.take(all.len() as int) == all);
    n
}

/// The title of the submenu of a network.
pub fn make_header(net: &NetworkStatus) -> (r: String)
    ensures
        r@ == header_text(net@),
{
    let mut out: String = net.network.clone();
    out.append("  (");
    push_dec(&mut out, count_online(&net.peers) as u64);
    out.append("/");
    push_dec(&mut out, net.member_count);
    out.append(")");
    if !net.active {
        out.append("  ·standby·");
    }
    assert(out@ == header_text(net@));
    out
}

/// The trailer that stands for the member rows that are not shown.
pub fn make_more_text(remaining: usize) -> (r: String)
    ensures
        r@ == more_text(remaining as nat),
{
    let mut out: String = "…and ".to_owned();
    push_dec(&mut out, remaining as u64);
    out.append(" more (open webui)");
    assert(out@ == more_text(remaining as nat));
    out
}

// ---------------------------------------------------------------------------
// The submenu of a network
// ---------------------------------------------------------------------------

/// A member row that the submenu holds.
#[derive(Debug, PartialEq, Eq)]
pub struct MemberRow {
    pub ip: Ipv4,
    pub label: String,
}

/// What the submenu of one network holds.
#[derive(Debug, PartialEq, Eq)]
pub struct NetworkUi {
    /// Local display name of the network.
    pub key: String,
    pub title: String,
    pub members: Vec<MemberRow>,
    /// The trailer behind the member rows, where there is one.
    pub more: Option<String>,
    /// The state that the toggle item was made for.
    pub active: bool,
    /// The toggle item is in the submenu.
    pub toggle_shown: bool,
}

/// Mathematical model of a [`MemberRow`].
pub struct MemberView {
    pub ip: Ipv4,
    pub label: Seq<char>,
}

/// Mathematical model of a [`NetworkUi`].
#[verifier::ext_equal]
pub struct UiView {
    pub key: Seq<char>,
    pub title: Seq<char>,
    pub members: Seq<MemberView>,
    pub more: Option<Seq<char>>,
    pub active: bool,
    pub toggle_shown: bool,
}

impl View for MemberRow {
    type V = MemberView;

    open spec fn view(&self) -> MemberView {
        MemberView { ip: self.ip, label: self.label@ }
    }
}

/// The models of a list of member rows.
pub open spec fn member_views(v: Seq<MemberRow>) -> Seq<MemberView> {
    v.map_values(|m: MemberRow| m@)
}

impl View for NetworkUi {
    type V = UiView;

    open spec fn view(&self) -> UiView {
        UiView {
            key: self.key@,
            title: self.title@,
            members: member_views(self.members@),
            more: text_of(self.more),
            active: self.active,
            toggle_shown: self.toggle_shown,
        }
    }
}

/// The models of a list of submenus.
pub open spec fn ui_views(v: Seq<NetworkUi>) -> Seq<UiView> {
    v.map_values(|u: NetworkUi| u@)
}

/// How many of `total` rows are shown.
pub open spec fn shown_count(total: nat) -> nat {
    if total <= MAX_MEMBER_ROWS {
        total
    } else {
        MAX_MEMBER_ROWS as nat
    }
}

/// The member rows of a network that its submenu shows.
pub open spec fn shown_rows(net: NetworkView) -> Seq<RowView> {
    desired_rows(net).take(shown_count(desired_rows(net).len()) as int)
}

/// The trailer of the submenu of a network: present where rows are left out.
pub open spec fn more_of(net: NetworkView) -> Option<Seq<char>> {
    let total = desired_rows(net).len();
    if total > shown_count(total) {
        Some(more_text((total - shown_count(total)) as nat))
    } else {
        None
    }
}

/// A member row as the submenu holds it.
pub open spec fn as_member(r: RowView) -> MemberView {
    MemberView { ip: r.ip, label: r.label }
}

/// The submenu of a network as it is built from scratch.
pub open spec fn built_ui(net: NetworkView) -> UiView {
    UiView {
        key: net.network,
        title: header_text(net),
        members: shown_rows(net).map_values(|r: RowView| as_member(r)),
        more: more_of(net),
        active: net.active,
        toggle_shown: true,
    }
}

/// An entry of a native menu.
#[derive(Debug, PartialEq, Eq)]
pub enum Entry {
    /// An item: one without an id is a label that cannot be clicked.
    Item { id: Option<String>, text: String },
    Separator,
}

/// Mathematical model of an [`Entry`].
pub enum EntryView {
    Item { id: Option<Seq<char>>, text: Seq<char> },
    Separator,
}

impl View for Entry {
    type V = EntryView;

    open spec fn view(&self) -> EntryView {
        match *self {
            Entry::Item { id, text } => EntryView::Item { id: text_of(id), text: text@ },
            Entry::Separator => EntryView::Separator,
        }
    }
}

/// The models of a list of entries.
pub open spec fn entry_views(v: Seq<Entry>) -> Seq<EntryView> {
    v.map_values(|e: Entry| e@)
}

/// The entry of a member row.
pub open spec fn member_entry(m: MemberView) -> EntryView {
    EntryView::Item { id: Some(member_id(m.ip)), text: m.label }
}

/// The entry of the trailer.
pub open spec fn more_entry(text: Seq<char>) -> EntryView {
    EntryView::Item { id: None, text }
}

/// The entry of the toggle.
pub open spec fn toggle_entry(key: Seq<char>, active: bool) -> EntryView {
    EntryView::Item { id: Some(toggle_id(key, active)), text: toggle_text(key, active) }
}

/// The trailer, where there is one.
pub open spec fn more_entries(more: Option<Seq<char>>) -> Seq<EntryView> {
    match more {
        Some(text) => seq![more_entry(text)],
        None => Seq::empty(),
    }
}

/// The toggle, where it is shown.
pub open spec fn toggle_entries(ui: UiView) -> Seq<EntryView> {
    if ui.toggle_shown {
        seq![toggle_entry(ui.key, ui.active)]
    } else {
        Seq::empty()
    }
}

/// The entries of a submenu from top to bottom: the member rows, the trailer,
/// a separator, and the toggle.
pub open spec fn layout(ui: UiView) -> Seq<EntryView> {
    ui.members.map_values(|m: MemberView| member_entry(m)) + more_entries(ui.more) + seq![
        EntryView::Separator,
    ] + toggle_entries(ui)
}

/// The entries of a submenu from top to bottom.
pub fn submenu_entries(ui: &NetworkUi) -> (r: Vec<Entry>)
    ensures
        entry_views(r@) == layout(ui@),
{
    let mut out: Vec<Entry> = Vec::new();
    let ghost rows = ui@.members.map_values(|m: MemberView| member_entry(m));
    for i in 0..ui.members.len()
        invariant
            rows == ui@.members.map_values(|m: MemberView| member_entry(m)),
            entry_views(out@) == rows.take(i as int),
    {
        let m: &MemberRow = &ui.members[i];
        let e: Entry = Entry::Item { id: Some(make_member_id(m.ip)), text: m.label.clone() };
        assert(e@ == rows[i as int]);
        let ghost before = out@;
        out.push(e);
        assert(entry_views(out@) == entry_views(before).push(e@));
        assert(rows.take(i + 1) == rows.take(i as int).push(rows[i as int]));
    }
    assert(rows.take(rows.len() as int) == rows);
    match &ui.more {
        Some(text) => {
            let e: Entry = Entry::Item { id: None, text: text.clone() };
            out.push(e);
        },
        None => {},
    }
    assert(entry_views(out@) == rows + more_entries(ui@.more));
    let ghost s2 = out@;
    out.push(Entry::Separator);
    assert(entry_views(out@) == entry_views(s2).push(EntryView::Separator));
    let ghost s3 = out@;
    if ui.toggle_shown {
        let e: Entry = Entry::Item {
            id: Some(make_toggle_id(ui.key.as_str(), ui.active)),
            text: make_toggle_text(ui.key.as_str(), ui.active),
        };
        out.push(e);
        assert(entry_views(out@) == entry_views(s3).push(e@));
    }
    assert(entry_views(out@) == layout(ui@));
    out
}

/// The submenu of a network, built from scratch.
pub fn build_network_ui(net: &NetworkStatus) -> (r: NetworkUi)
    ensures
        r@ == built_ui(net@),
{
    let desired: Vec<Row> = compute_desired_rows(net);
    let shown: usize = if desired.len() <= MAX_MEMBER_ROWS {
        desired.len()
    } else {
        MAX_MEMBER_ROWS
    };
    let ghost want = built_ui(net@).members;
    let mut members: Vec<MemberRow> = Vec::new();
    assert(desired.len() == desired_rows(net@).len()) by {
        assert(row_views(desired@).len() == desired@.len());
    }
    for i in 0..shown
        invariant
            row_views(desired@) == desired_rows(net@),
            desired.len() == desired_rows(net@).len(),
            shown == shown_count(desired@.len()),
            want == built_ui(net@).members,
            member_views(members@) == want.take(i as int),
    {
        let row: &Row = &desired[i];
        let m: MemberRow = MemberRow { ip: row.ip, label: row.label.clone() };
        proof {
            assert(row_views(desired@)[i as int] == row@);
            assert(m@ == want[i as int]);
        }
        let ghost before = members@;
        members.push(m);
        assert(member_views(members@) == member_views(before).push(m@));
        assert(want.take(i + 1) == want.take(i as int).push(want[i as int]));
    }
    assert(want.take(want.len() as int) == want);
    let more: Option<String> = if desired.len() > shown {
        Some(make_more_text(desired.len() - shown))
    } else {
        None
    };
    let r: NetworkUi = NetworkUi {
        key: net.network.clone(),
        title: make_header(net),
        members,
        more,
        active: net.active,
        toggle_shown: true,
    };
    assert(r@ =~= built_ui(net@));
    r
}

// ---------------------------------------------------------------------------
// The whole menu
// ---------------------------------------------------------------------------

/// An entry of the top-level menu.
#[derive(Debug, PartialEq, Eq)]
pub enum TopEntry {
    /// The status line: a label that cannot be clicked.
    Status { text: String },
    Separator,
    /// The submenu of the network with this index.
    Network { index: usize },
    /// An item that can be clicked.
    Action { id: String, text: String },
}

/// Mathematical model of a [`TopEntry`].
pub enum TopView {
    Status { text: Seq<char> },
    Separator,
    Network { index: int },
    Action { id: Seq<char>, text: Seq<char> },
}

impl View for TopEntry {
    type V = TopView;

    open spec fn view(&self) -> TopView {
        match *self {
            TopEntry::Status { text } => TopView::Status { text: text@ },
            TopEntry::Separator => TopView::Separator,
            TopEntry::Network { index } => TopView::Network { index: index as int },
            TopEntry::Action { id, text } => TopView::Action { id: id@, text: text@ },
        }
    }
}

/// The models of a list of top-level entries.
pub open spec fn top_views(v: Seq<TopEntry>) -> Seq<TopView> {
    v.map_values(|e: TopEntry| e@)
}

/// The entries behind the networks, while the daemon can be reached.
pub open spec fn global_actions() -> Seq<TopView> {
    seq![
        TopView::Action { id: "resume_all"@, text: "Resume all"@ },
        TopView::Action { id: "standby_all"@, text: "Standby all"@ },
        TopView::Separator,
        TopView::Action { id: "open_webui"@, text: "Open webui"@ },
        TopView::Separator,
    ]
}

/// The entries that stand only while the daemon can be reached: the networks
/// in the daemon's order, a separator if there are any, and the actions that
/// concern all of them.
pub open spec fn reachable_entries(networks: nat) -> Seq<TopView> {
    Seq::new(networks, |i: int| TopView::Network { index: i }) + (if networks > 0 {
        seq![TopView::Separator]
    } else {
        Seq::empty()
    }) + global_actions()
}

/// The top-level menu from top to bottom.
pub open spec fn menu_entries(reachable: bool, active: bool, networks: nat) -> Seq<TopView> {
    seq![TopView::Status { text: status_text(reachable, active) }, TopView::Separator] + (
    if reachable {
        reachable_entries(networks)
    } else {
        Seq::empty()
    }) + seq![TopView::Action { id: "quit"@, text: "Quit"@ }]
}

/// The submenus of the menu.
pub open spec fn menu_networks(reachable: bool, networks: Seq<NetworkView>) -> Seq<UiView> {
    if reachable {
        networks.map_values(|n: NetworkView| built_ui(n))
    } else {
        Seq::empty()
    }
}

/// A menu built from scratch, and the state of its submenus.
#[derive(Debug, PartialEq, Eq)]
pub struct MenuAndState {
    pub entries: Vec<TopEntry>,
    pub network_uis: Vec<NetworkUi>,
}

fn push_entry(out: &mut Vec<TopEntry>, e: TopEntry)
    ensures
        top_views(final(out)@) == top_views(old(out)@).push(e@),
{
    out.push(e);
    assert(top_views(out@) == top_views(old(out)@).push(e@));
}

fn push_action(out: &mut Vec<TopEntry>, id: &str, text: &str)
    ensures
        top_views(final(out)@) == top_views(old(out)@).push(
            TopView::Action { id: id@, text: text@ },
        ),
{
    push_entry(out, TopEntry::Action { id: id.to_owned(), text: text.to_owned() });
}

/// Builds the whole menu from scratch, for the first time or because the set
/// of networks or the reachability changed.
pub fn build_menu_and_state(reachable: bool, active: bool, networks: &Vec<NetworkStatus>) -> (r:
    MenuAndState)
    ensures
        top_views(r.entries@) == menu_entries(reachable, active, networks@.len()),
        ui_views(r.network_uis@) == menu_networks(reachable, network_views(networks@)),
{
    let mut entries: Vec<TopEntry> = Vec::new();
    let mut network_uis: Vec<NetworkUi> = Vec::new();
    assert(top_views(entries@) == Seq::<TopView>::empty());
    push_entry(&mut entries, TopEntry::Status { text: update_status_item(reachable, active) });
    push_entry(&mut entries, TopEntry::Separator);
    let ghost head = seq![
        TopView::Status { text: status_text(reachable, active) },
        TopView::Separator,
    ];
    assert(top_views(entries@) == head);
    let ghost views = network_views(networks@);
    let ghost uis = views.map_values(|n: NetworkView| built_ui(n));
    assert(ui_views(network_uis@) == Seq::<UiView>::empty());
    if reachable {
        let ghost nets = Seq::new(networks@.len(), |i: int| TopView::Network { index: i });
        assert(head + nets.take(0) == head);
        assert(uis.take(0) == Seq::<UiView>::empty());
        for i in 0..networks.len()
            invariant
                nets == Seq::new(networks@.len(), |i: int| TopView::Network { index: i }),
                views == network_views(networks@),
                uis == views.map_values(|n: NetworkView| built_ui(n)),
                top_views(entries@) == head + nets.take(i as int),
                ui_views(network_uis@) == uis.take(i as int),
        {
            let ui: NetworkUi = build_network_ui(&networks[i]);
            assert(views[i as int] == networks@[i as int]@);
            let ghost before = network_uis@;
            network_uis.push(ui);
            assert(ui_views(network_uis@) == ui_views(before).push(ui@));
            assert(uis.take(i + 1) == uis.take(i as int).push(uis[i as int]));
            push_entry(&mut entries, TopEntry::Network { index: i });
            assert(nets.take(i + 1) == nets.take(i as int).push(nets[i as int]));
            assert(top_views(entries@) == head + nets.take(i + 1));
        }
        assert(nets.take(nets.len() as int) == nets);
        assert(uis.take(uis.len() as int) == uis);
        if networks.len() > 0 {
            push_entry(&mut entries, TopEntry::Separator);
        }
        push_action(&mut entries, "resume_all", "Resume all");
        push_action(&mut entries, "standby_all", "Standby all");
        push_entry(&mut entries, TopEntry::Separator);
        push_action(&mut entries, "open_webui", "Open webui");
        push_entry(&mut entries, TopEntry::Separator);
        assert(top_views(entries@) == head + reachable_entries(networks@.len()));
    }
    push_action(&mut entries, "quit", "Quit");
    assert(top_views(entries@) == menu_entries(reachable, active, networks@.len()));
    MenuAndState { entries, network_uis }
}

/// Every item of the menu that can be clicked has a meaning: it quits the
/// program or a click on it asks for something.
pub proof fn law_every_item_has_a_meaning(reachable: bool, active: bool, networks: nat)
    ensures
        forall|i: int|
            0 <= i < menu_entries(reachable, active, networks).len() ==> (#[trigger] menu_entries(
                reachable,
                active,
                networks,
            )[i] matches TopView::Action { id, text } ==> id == "quit"@ || clicked(id)
                != ClickView::Nothing),
{
    law_global_clicks();
}

/// Every item of a submenu that can be clicked copies the address of a member
/// row or toggles the network.
pub proof fn law_every_submenu_item_has_a_meaning(ui: UiView)
    ensures
        forall|i: int|
            0 <= i < layout(ui).len() ==> (#[trigger] layout(ui)[i] matches EntryView::Item {
                id: Some(id),
                text,
            } ==> {
                ||| exists|j: int|
                    0 <= j < ui.members.len() && clicked(id) == (ClickView::CopyToClipboard {
                        text: dotted((#[trigger] ui.members[j]).ip),
                    })
                ||| clicked(id) == (ClickView::Send {
                    request: if ui.active {
                        RequestView::Standby { network: Some(ui.key) }
                    } else {
                        RequestView::Resume { hostname: None, network: Some(ui.key) }
                    },
                })
            }),
{
    law_toggle_click(ui.key, ui.active);
    assert forall|i: int| 0 <= i < ui.members.len() implies clicked(
        member_id((#[trigger] ui.members[i]).ip),
    ) == (ClickView::CopyToClipboard { text: dotted(ui.members[i].ip) }) by {
        law_member_click(ui.members[i].ip);
    }
    assert forall|i: int| 0 <= i < layout(ui).len() implies (#[trigger] layout(
        ui,
    )[i] matches EntryView::Item { id: Some(id), text } ==> {
        ||| exists|j: int|
            0 <= j < ui.members.len() && clicked(id) == (ClickView::CopyToClipboard {
                text: dotted((#[trigger] ui.members[j]).ip),
            })
        ||| clicked(id) == (ClickView::Send {
            request: if ui.active {
                RequestView::Standby { network: Some(ui.key) }
            } else {
                RequestView::Resume { hostname: None, network: Some(ui.key) }
            },
        })
    }) by {
        if i < ui.members.len() {
            assert(layout(ui)[i] == member_entry(ui.members[i]));
        }
    }
}

} // verus!
