//! In-place updates of the submenu of a network.
//!
//! A submenu is brought up to date by a list of small edits, each of which
//! concerns one native item. A row whose address is still to be shown is never
//! taken out and put back: only its text is set, so that the native item behind
//! it, and what a click on it means, stay the same.
use crate::actions::{
    make_member_id, make_toggle_id, make_toggle_text, member_id, toggle_id, toggle_text,
};
use crate::members::{
    compute_desired_rows, row_views, Ipv4, NetworkStatus, NetworkView, Row, RowView,
};
use crate::menu::{
    as_member, header_text, make_header, make_more_text, more_entries, more_of, shown_rows,
    MemberRow, MemberView, NetworkUi, UiView, MAX_MEMBER_ROWS,
};
use vstd::prelude::*;

verus! {

// ---------------------------------------------------------------------------
// Edits
// ---------------------------------------------------------------------------

/// One edit of the native submenu of a network.
#[derive(Debug, PartialEq, Eq)]
pub enum MenuOp {
    /// Take out the member row with this index.
    RemoveMember { index: usize },
    /// Set the text of the member row with this index.
    RelabelMember { index: usize, label: String },
    /// Put a new member row at this position of the submenu.
    InsertMember { pos: usize, ip: Ipv4, id: String, label: String },
    /// Set the text of the trailer.
    RelabelMore { text: String },
    /// Put a trailer at this position of the submenu.
    InsertMore { pos: usize, text: String },
    /// Take out the trailer.
    RemoveMore,
    /// Set the title of the submenu.
    SetTitle { text: String },
    /// Take out the toggle.
    RemoveToggle,
    /// Put a new toggle, made for this state, at this position of the submenu.
    InsertToggle { pos: usize, id: String, text: String, active: bool },
}

/// Mathematical model of a [`MenuOp`].
pub enum OpView {
    RemoveMember { index: int },
    RelabelMember { index: int, label: Seq<char> },
    InsertMember { pos: int, ip: Ipv4, id: Seq<char>, label: Seq<char> },
    RelabelMore { text: Seq<char> },
    InsertMore { pos: int, text: Seq<char> },
    RemoveMore,
    SetTitle { text: Seq<char> },
    RemoveToggle,
    InsertToggle { pos: int, id: Seq<char>, text: Seq<char>, active: bool },
}

impl View for MenuOp {
    type V = OpView;

    open spec fn view(&self) -> OpView {
        match *self {
            MenuOp::RemoveMember { index } => OpView::RemoveMember { index: index as int },
            MenuOp::RelabelMember { index, label } => OpView::RelabelMember {
                index: index as int,
                label: label@,
            },
            MenuOp::InsertMember { pos, ip, id, label } => OpView::InsertMember {
                pos: pos as int,
                ip,
                id: id@,
                label: label@,
            },
            MenuOp::RelabelMore { text } => OpView::RelabelMore { text: text@ },
            MenuOp::InsertMore { pos, text } => OpView::InsertMore { pos: pos as int, text: text@ },
            MenuOp::RemoveMore => OpView::RemoveMore,
            MenuOp::SetTitle { text } => OpView::SetTitle { text: text@ },
            MenuOp::RemoveToggle => OpView::RemoveToggle,
            MenuOp::InsertToggle { pos, id, text, active } => OpView::InsertToggle {
                pos: pos as int,
                id: id@,
                text: text@,
                active,
            },
        }
    }
}

/// The models of a list of edits.
pub open spec fn op_views(v: Seq<MenuOp>) -> Seq<OpView> {
    v.map_values(|o: MenuOp| o@)
}

/// What the submenu holds once an edit is done.
pub open spec fn applied(ui: UiView, op: OpView) -> UiView {
    match op {
        OpView::RemoveMember { index } => UiView { members: ui.members.remove(index), ..ui },
        OpView::RelabelMember { index, label } => UiView {
            members: ui.members.update(index, MemberView { ip: ui.members[index].ip, label }),
            ..ui
        },
        OpView::InsertMember { pos, ip, id, label } => UiView {
            members: ui.members.push(MemberView { ip, label }),
            ..ui
        },
        OpView::RelabelMore { text } => UiView { more: Some(text), ..ui },
        OpView::InsertMore { pos, text } => UiView { more: Some(text), ..ui },
        OpView::RemoveMore => UiView { more: None, ..ui },
        OpView::SetTitle { text } => UiView { title: text, ..ui },
        OpView::RemoveToggle => UiView { toggle_shown: false, ..ui },
        OpView::InsertToggle { pos, id, text, active } => UiView {
            active,
            toggle_shown: true,
            ..ui
        },
    }
}

/// What the submenu holds once a list of edits is done, in order.
pub open spec fn run(ui: UiView, ops: Seq<OpView>) -> UiView
    decreases ops.len(),
{
    if ops.len() == 0 {
        ui
    } else {
        applied(run(ui, ops.drop_last()), ops.last())
    }
}

/// The edit names a member row that the submenu holds.
pub open spec fn in_range(ui: UiView, op: OpView) -> bool {
    match op {
        OpView::RemoveMember { index } => 0 <= index < ui.members.len(),
        OpView::RelabelMember { index, label } => 0 <= index < ui.members.len(),
        _ => true,
    }
}

impl NetworkUi {
    /// Records that an edit was done.
    pub fn apply(&mut self, op: MenuOp)
        requires
            in_range(old(self)@, op@),
        ensures
            final(self)@ == applied(old(self)@, op@),
    {
        let ghost before = self@;
        match op {
            MenuOp::RemoveMember { index } => {
                self.members.remove(index);
            },
            MenuOp::RelabelMember { index, label } => {
                let ip: Ipv4 = self.members[index].ip;
                self.members.set(index, MemberRow { ip, label });
            },
            MenuOp::InsertMember { pos, ip, id, label } => {
                self.members.push(MemberRow { ip, label });
            },
            MenuOp::RelabelMore { text } => {
                self.more = Some(text);
            },
            MenuOp::InsertMore { pos, text } => {
                self.more = Some(text);
            },
            MenuOp::RemoveMore => {
                self.more = None;
            },
            MenuOp::SetTitle { text } => {
                self.title = text;
            },
            MenuOp::RemoveToggle => {
                self.toggle_shown = false;
            },
            MenuOp::InsertToggle { pos, id, text, active } => {
                self.active = active;
                self.toggle_shown = true;
            },
        }
        assert(self@ =~= applied(before, op@));
    }

    /// Records the outcome of an edit of the native submenu, and returns
    /// whether the edits that follow are to be made. A failed edit leaves the
    /// record as it was, except that a trailer that could not be taken out is
    /// given up.
    pub fn settle(&mut self, op: MenuOp, done: bool) -> (go_on: bool)
        requires
            in_range(old(self)@, op@),
        ensures
            go_on == done,
            final(self)@ == (if done || op@ is RemoveMore {
                applied(old(self)@, op@)
            } else {
                old(self)@
            }),
    {
        let given_up: bool = match op {
            MenuOp::RemoveMore => true,
            _ => false,
        };
        if done || given_up {
            self.apply(op);
        }
        done
    }
}

// ---------------------------------------------------------------------------
// Member rows
// ---------------------------------------------------------------------------

/// Some row has this address.
pub open spec fn has_ip(rows: Seq<RowView>, ip: Ipv4) -> bool {
    exists|j: int| 0 <= j < rows.len() && (#[trigger] rows[j]).ip == ip
}

/// Some member row has this address.
pub open spec fn has_member(members: Seq<MemberView>, ip: Ipv4) -> bool {
    exists|j: int| 0 <= j < members.len() && (#[trigger] members[j]).ip == ip
}

/// The label of the first row with this address.
pub open spec fn label_for(rows: Seq<RowView>, ip: Ipv4) -> Seq<char>
    decreases rows.len(),
{
    if rows.len() == 0 {
        Seq::empty()
    } else if rows[0].ip == ip {
        rows[0].label
    } else {
        label_for(rows.skip(1), ip)
    }
}

/// A member row stays as long as a row with its address is to be shown.
pub open spec fn stays(shown: Seq<RowView>) -> spec_fn(MemberView) -> bool {
    |m: MemberView| has_ip(shown, m.ip)
}

/// A member row with the label that is to be shown for its address.
pub open spec fn relabel(shown: Seq<RowView>) -> spec_fn(MemberView) -> MemberView {
    |m: MemberView| MemberView { ip: m.ip, label: label_for(shown, m.ip) }
}

/// The rows among the first `k` to be shown whose address no member row has
/// yet, behind the member rows in `have`.
pub open spec fn new_members(have: Seq<MemberView>, shown: Seq<RowView>, k: int) -> Seq<MemberView>
    decreases k,
{
    if k <= 0 {
        Seq::empty()
    } else {
        let prev = new_members(have, shown, k - 1);
        if has_member(have + prev, shown[k - 1].ip) {
            prev
        } else {
            prev.push(as_member(shown[k - 1]))
        }
    }
}

/// The member rows once they are brought up to date: those that stay, in the
/// order they had and with fresh labels, then the new ones in the order in
/// which they are to be shown.
pub open spec fn reconciled_members(members: Seq<MemberView>, shown: Seq<RowView>) -> Seq<
    MemberView,
> {
    let kept = members.filter(stays(shown));
    kept.map_values(relabel(shown)) + new_members(kept, shown, shown.len() as int)
}

/// The submenu once its member rows and its trailer are brought up to date.
pub open spec fn reconciled(ui: UiView, net: NetworkView) -> UiView {
    UiView { members: reconciled_members(ui.members, shown_rows(net)), more: more_of(net), ..ui }
}

/// The edits that take out the member rows from index `n` on that do not stay,
/// last one first.
pub open spec fn removals(members: Seq<MemberView>, shown: Seq<RowView>, n: int) -> Seq<OpView>
    decreases members.len() - n,
{
    if n >= members.len() {
        Seq::empty()
    } else if has_ip(shown, members[n].ip) {
        removals(members, shown, n + 1)
    } else {
        removals(members, shown, n + 1).push(OpView::RemoveMember { index: n })
    }
}

/// The edits that set the labels of the member rows.
pub open spec fn relabels(kept: Seq<MemberView>, shown: Seq<RowView>) -> Seq<OpView> {
    Seq::new(
        kept.len(),
        |i: int| OpView::RelabelMember { index: i, label: label_for(shown, kept[i].ip) },
    )
}

/// The edit that puts a new member row behind `count` others.
pub open spec fn insertion(count: int, row: RowView) -> OpView {
    OpView::InsertMember { pos: count, ip: row.ip, id: member_id(row.ip), label: row.label }
}

/// The edits that put in the new ones among the first `k` rows.
pub open spec fn insertions(have: Seq<MemberView>, shown: Seq<RowView>, k: int) -> Seq<OpView>
    decreases k,
{
    if k <= 0 {
        Seq::empty()
    } else {
        let prev = new_members(have, shown, k - 1);
        let ops = insertions(have, shown, k - 1);
        if has_member(have + prev, shown[k - 1].ip) {
            ops
        } else {
            ops.push(insertion((have.len() + prev.len()) as int, shown[k - 1]))
        }
    }
}

/// The edit that brings the trailer, which follows `count` member rows, up to
/// date.
pub open spec fn trailer_ops(
    old_more: Option<Seq<char>>,
    new_more: Option<Seq<char>>,
    count: int,
) -> Seq<OpView> {
    match new_more {
        Some(text) => if old_more is Some {
            seq![OpView::RelabelMore { text }]
        } else {
            seq![OpView::InsertMore { pos: count, text }]
        },
        None => if old_more is Some {
            seq![OpView::RemoveMore]
        } else {
            Seq::empty()
        },
    }
}

/// The edits that bring the member rows and the trailer up to date.
pub open spec fn member_ops(ui: UiView, net: NetworkView) -> Seq<OpView> {
    let shown = shown_rows(net);
    let kept = ui.members.filter(stays(shown));
    removals(ui.members, shown, 0) + relabels(kept, shown) + insertions(
        kept,
        shown,
        shown.len() as int,
    ) + trailer_ops(
        ui.more,
        more_of(net),
        reconciled_members(ui.members, shown).len() as int,
    )
}

fn rows_have(rows: &Vec<Row>, n: usize, ip: Ipv4) -> (r: bool)
    requires
        n <= rows.len(),
    ensures
        r == has_ip(row_views(rows@).take(n as int), ip),
{
    let ghost s = row_views(rows@).take(n as int);
    for j in 0..n
        invariant
            n <= rows.len(),
            s == row_views(rows@).take(n as int),
            forall|i: int| 0 <= i < j ==> (#[trigger] s[i]).ip != ip,
    {
        assert(s[j as int] == rows@[j as int]@);
        if rows[j].ip == ip {
            return true;
        }
    }
    false
}

fn first_label(rows: &Vec<Row>, n: usize, ip: Ipv4) -> (r: String)
    requires
        n <= rows.len(),
    ensures
        r@ == label_for(row_views(rows@).take(n as int), ip),
{
    let ghost s = row_views(rows@).take(n as int);
    assert(s.skip(0) == s);
    for j in 0..n
        invariant
            n <= rows.len(),
            s == row_views(rows@).take(n as int),
            label_for(s, ip) == label_for(s.skip(j as int), ip),
    {
        assert(s[j as int] == rows@[j as int]@);
        if rows[j].ip == ip {
            return rows[j].label.clone();
        }
        assert(s.skip(j as int).skip(1) == s.skip(j + 1));
    }
    String::new()
}

spec fn ips(members: Seq<MemberView>) -> Seq<Ipv4> {
    members.map_values(|m: MemberView| m.ip)
}

fn ips_have(have: &Vec<Ipv4>, Ghost(members): Ghost<Seq<MemberView>>, ip: Ipv4) -> (r: bool)
    requires
        have@ == ips(members),
    ensures
        r == has_member(members, ip),
{
    for j in 0..have.len()
        invariant
            have@ == ips(members),
            forall|i: int| 0 <= i < j ==> (#[trigger] members[i]).ip != ip,
    {
        assert(have@[j as int] == members[j as int].ip);
        if have[j] == ip {
            return true;
        }
    }
    false
}

fn push_op(ops: &mut Vec<MenuOp>, op: MenuOp)
    ensures
        op_views(final(ops)@) == op_views(old(ops)@).push(op@),
{
    ops.push(op);
    assert(op_views(ops@) == op_views(old(ops)@).push(op@));
}

/// The edits that bring the member rows and the trailer of a submenu up to
/// date with the status of its network.
#[verifier::loop_isolation(false)]
pub fn update_network_members(net_ui: &NetworkUi, net: &NetworkStatus) -> (ops: Vec<MenuOp>)
    ensures
        op_views(ops@) == member_ops(net_ui@, net@),
{
    let desired: Vec<Row> = compute_desired_rows(net);
    let total: usize = desired.len();
    let shown: usize = if total <= MAX_MEMBER_ROWS {
        total
    } else {
        MAX_MEMBER_ROWS
    };
    let ghost rows = shown_rows(net@);
    let ghost members = net_ui@.members;
    assert(row_views(desired@).len() == total);
    assert(rows == row_views(desired@).take(shown as int));
    let mut ops: Vec<MenuOp> = Vec::new();
    assert(op_views(ops@) == Seq::<OpView>::empty());

    // Rows that do not stay, last one first, so that the indices hold.
    let mut i: usize = net_ui.members.len();
    while i > 0
        invariant
            i <= net_ui.members.len(),
            op_views(ops@) == removals(members, rows, i as int),
        decreases i,
    {
        i = i - 1;
        assert(members[i as int] == net_ui.members@[i as int]@);
        if !rows_have(&desired, shown, net_ui.members[i].ip) {
            push_op(&mut ops, MenuOp::RemoveMember { index: i });
        }
    }
    let ghost ops1 = removals(members, rows, 0);

    // Labels of the rows that stay.
    let ghost kept = members.filter(stays(rows));
    let mut have: Vec<Ipv4> = Vec::new();
    proof {
        reveal(Seq::filter);
        assert(members.take(0).filter(stays(rows)) == Seq::<MemberView>::empty());
        assert(ips(members.take(0).filter(stays(rows))) == have@);
        assert(ops1 + relabels(Seq::<MemberView>::empty(), rows) == ops1);
    }
    for j in 0..net_ui.members.len()
        invariant
            have@ == ips(members.take(j as int).filter(stays(rows))),
            op_views(ops@) == ops1 + relabels(members.take(j as int).filter(stays(rows)), rows),
    {
        let ip: Ipv4 = net_ui.members[j].ip;
        let ghost so_far = members.take(j as int).filter(stays(rows));
        let ghost m = members[j as int];
        assert(m == net_ui.members@[j as int]@);
        proof {
            reveal(Seq::filter);
            assert(members.take(j + 1).drop_last() == members.take(j as int));
        }
        if rows_have(&desired, shown, ip) {
            let label: String = first_label(&desired, shown, ip);
            assert(have@.len() == so_far.len());
            push_op(&mut ops, MenuOp::RelabelMember { index: have.len(), label });
            have.push(ip);
            proof {
                assert(stays(rows)(m));
                assert(members.take(j + 1).filter(stays(rows)) == so_far.push(m));
                assert(ips(so_far.push(m)) == ips(so_far).push(ip));
                assert(relabels(so_far.push(m), rows) == relabels(so_far, rows).push(
                    OpView::RelabelMember { index: so_far.len() as int, label: label@ },
                ));
            }
        }
    }
    assert(members.take(members.len() as int) == members);
    let ghost ops2 = ops1 + relabels(kept, rows);

    // New rows, behind all others.
    assert(kept + new_members(kept, rows, 0) == kept);
    assert(ops2 + insertions(kept, rows, 0) == ops2);
    for k in 0..shown
        invariant
            have@ == ips(kept + new_members(kept, rows, k as int)),
            op_views(ops@) == ops2 + insertions(kept, rows, k as int),
    {
        let row: &Row = &desired[k];
        assert(rows[k as int] == row@);
        let ghost fresh = new_members(kept, rows, k as int);
        if !ips_have(&have, Ghost(kept + fresh), row.ip) {
            let pos: usize = have.len();
            push_op(
                &mut ops,
                MenuOp::InsertMember {
                    pos,
                    ip: row.ip,
                    id: make_member_id(row.ip),
                    label: row.label.clone(),
                },
            );
            have.push(row.ip);
            proof {
                let m = as_member(row@);
                assert(kept + fresh.push(m) == (kept + fresh).push(m));
                assert(ips((kept + fresh).push(m)) == ips(kept + fresh).push(m.ip));
                assert(ops2 + insertions(kept, rows, k + 1) == (ops2 + insertions(
                    kept,
                    rows,
                    k as int,
                )).push(insertion(pos as int, row@)));
            }
        }
    }

    // The trailer.
    let ghost ops3 = ops2 + insertions(kept, rows, shown as int);
    let ghost count = reconciled_members(members, rows).len() as int;
    assert(have@.len() == count);
    if total > shown {
        let text: String = make_more_text(total - shown);
        if net_ui.more.is_some() {
            push_op(&mut ops, MenuOp::RelabelMore { text });
        } else {
            push_op(&mut ops, MenuOp::InsertMore { pos: have.len(), text });
        }
    } else if net_ui.more.is_some() {
        push_op(&mut ops, MenuOp::RemoveMore);
    }
    assert(op_views(ops@) == ops3 + trailer_ops(net_ui@.more, more_of(net@), count));
    ops
}

// ---------------------------------------------------------------------------
// Title and toggle
// ---------------------------------------------------------------------------

/// The position of the toggle: behind the member rows, the trailer and the
/// separator.
pub open spec fn toggle_pos(ui: UiView) -> int {
    (ui.members.len() + more_entries(ui.more).len() + 1) as int
}

/// The edits that bring the title and the toggle up to date. The id of an item
/// cannot change, so the toggle is replaced where the state of the network is
/// another than the one it was made for.
pub open spec fn chrome_ops(ui: UiView, net: NetworkView) -> Seq<OpView> {
    seq![OpView::SetTitle { text: header_text(net) }] + (if net.active != ui.active {
        seq![
            OpView::RemoveToggle,
            OpView::InsertToggle {
                pos: toggle_pos(ui),
                id: toggle_id(net.network, net.active),
                text: toggle_text(net.network, net.active),
                active: net.active,
            },
        ]
    } else {
        Seq::empty()
    })
}

/// The edits that bring the title and the toggle of a submenu up to date with
/// the status of its network.
pub fn update_network_chrome(net_ui: &NetworkUi, net: &NetworkStatus) -> (ops: Vec<MenuOp>)
    requires
        net_ui.members.len() <= usize::MAX - 2,
    ensures
        op_views(ops@) == chrome_ops(net_ui@, net@),
{
    let mut ops: Vec<MenuOp> = Vec::new();
    assert(op_views(ops@) == Seq::<OpView>::empty());
    push_op(&mut ops, MenuOp::SetTitle { text: make_header(net) });
    if net.active != net_ui.active {
        let sep_offset: usize = net_ui.members.len() + (if net_ui.more.is_some() {
            1usize
        } else {
            0usize
        });
        push_op(&mut ops, MenuOp::RemoveToggle);
        push_op(
            &mut ops,
            MenuOp::InsertToggle {
                pos: sep_offset + 1,
                id: make_toggle_id(net.network.as_str(), net.active),
                text: make_toggle_text(net.network.as_str(), net.active),
                active: net.active,
            },
        );
    }
    assert(op_views(ops@) == chrome_ops(net_ui@, net@));
    ops
}

} // verus!
