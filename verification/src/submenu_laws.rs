//! What the in-place updates of a submenu guarantee.
use crate::actions::{member_id, toggle_id, toggle_text};
use crate::members::{Ipv4, NetworkView, RowView};
use crate::menu::{
    as_member, built_ui, header_text, layout, member_entry, more_of, shown_rows, EntryView,
    MemberView, UiView, MAX_MEMBER_ROWS,
};
use crate::reconcile::{
    applied, chrome_ops, has_ip, has_member, in_range, insertion, insertions, label_for, member_ops,
    new_members, op_views, reconciled, reconciled_members, relabel, relabels, removals, run, stays,
    toggle_pos, trailer_ops, MenuOp, OpView,
};
use vstd::prelude::*;

verus! {

// ---------------------------------------------------------------------------
// Lists of edits
// ---------------------------------------------------------------------------

/// The edit can be made on a native submenu that looks like `layout(ui)`, and
/// names the positions that its items have there.
pub open spec fn fits(ui: UiView, op: OpView) -> bool {
    match op {
        OpView::RemoveMember { index } => 0 <= index < ui.members.len(),
        OpView::RelabelMember { index, label } => 0 <= index < ui.members.len(),
        OpView::InsertMember { pos, ip, id, label } => pos == ui.members.len() && id == member_id(
            ip,
        ),
        OpView::RelabelMore { text } => ui.more is Some,
        OpView::InsertMore { pos, text } => ui.more is None && pos == ui.members.len(),
        OpView::RemoveMore => ui.more is Some,
        OpView::SetTitle { text } => true,
        OpView::RemoveToggle => ui.toggle_shown,
        OpView::InsertToggle { pos, id, text, active } => {
            &&& !ui.toggle_shown
            &&& pos == toggle_pos(ui)
            &&& id == toggle_id(ui.key, active)
            &&& text == toggle_text(ui.key, active)
        },
    }
}

/// Each edit of a list can be made once those before it are done.
pub open spec fn all_fit(ui: UiView, ops: Seq<OpView>) -> bool
    decreases ops.len(),
{
    ops.len() == 0 || {
        &&& all_fit(ui, ops.drop_last())
        &&& fits(run(ui, ops.drop_last()), ops.last())
    }
}

/// What an edit does to the entries of the native submenu behind `ui`. An item
/// that is to be taken out or relabelled is found as the item it is; a new one
/// is put at the position that the edit gives.
pub open spec fn edited(native: Seq<EntryView>, ui: UiView, op: OpView) -> Seq<EntryView> {
    match op {
        OpView::RemoveMember { index } => native.remove(index),
        OpView::RelabelMember { index, label } => native.update(
            index,
            EntryView::Item { id: native[index]->id, text: label },
        ),
        OpView::InsertMember { pos, ip, id, label } => native.insert(
            pos,
            EntryView::Item { id: Some(id), text: label },
        ),
        OpView::RelabelMore { text } => native.update(
            ui.members.len() as int,
            EntryView::Item { id: None, text },
        ),
        OpView::InsertMore { pos, text } => native.insert(pos, EntryView::Item { id: None, text }),
        OpView::RemoveMore => native.remove(ui.members.len() as int),
        OpView::SetTitle { text } => native,
        OpView::RemoveToggle => native.remove(toggle_pos(ui)),
        OpView::InsertToggle { pos, id, text, active } => native.insert(
            pos,
            EntryView::Item { id: Some(id), text },
        ),
    }
}

/// What a list of edits does to the entries of the native submenu behind `ui`.
pub open spec fn all_edited(native: Seq<EntryView>, ui: UiView, ops: Seq<OpView>) -> Seq<EntryView>
    decreases ops.len(),
{
    if ops.len() == 0 {
        native
    } else {
        edited(
            all_edited(native, ui, ops.drop_last()),
            run(ui, ops.drop_last()),
            ops.last(),
        )
    }
}

proof fn lemma_concat(ui: UiView, a: Seq<OpView>, b: Seq<OpView>)
    ensures
        run(ui, a + b) == run(run(ui, a), b),
        all_fit(ui, a) && all_fit(run(ui, a), b) ==> all_fit(ui, a + b),
    decreases b.len(),
{
    if b.len() == 0 {
        assert(a + b == a);
    } else {
        lemma_concat(ui, a, b.drop_last());
        assert((a + b).drop_last() == a + b.drop_last());
        assert((a + b).last() == b.last());
    }
}

proof fn lemma_one(ui: UiView, op: OpView)
    ensures
        run(ui, seq![op]) == applied(ui, op),
        all_fit(ui, seq![op]) == fits(ui, op),
{
    reveal_with_fuel(run, 2);
    reveal_with_fuel(all_fit, 2);
    assert(seq![op].drop_last() == Seq::<OpView>::empty());
}

/// An edit that fits keeps the native submenu and its record in step: what the
/// edit makes of the native entries is what the record then says they are.
pub proof fn law_edit_keeps_step(ui: UiView, op: OpView)
    requires
        fits(ui, op),
    ensures
        edited(layout(ui), ui, op) == layout(applied(ui, op)),
{
    let f = |m: MemberView| member_entry(m);
    let rows = ui.members.map_values(f);
    let after = applied(ui, op);
    let after_rows = after.members.map_values(f);
    match op {
        OpView::RemoveMember { index } => {
            assert(after_rows == rows.remove(index));
        },
        OpView::RelabelMember { index, label } => {
            assert(layout(ui)[index] == rows[index]);
            assert(after_rows == rows.update(
                index,
                EntryView::Item { id: layout(ui)[index]->id, text: label },
            ));
        },
        OpView::InsertMember { pos, ip, id, label } => {
            assert(after_rows == rows.push(EntryView::Item { id: Some(id), text: label }));
        },
        _ => {
            assert(after_rows == rows);
        },
    }
    assert(edited(layout(ui), ui, op) =~= layout(after));
}

/// A list of edits that fit keeps the native submenu and its record in step.
pub proof fn law_edits_keep_step(ui: UiView, ops: Seq<OpView>)
    requires
        all_fit(ui, ops),
    ensures
        all_edited(layout(ui), ui, ops) == layout(run(ui, ops)),
    decreases ops.len(),
{
    if ops.len() > 0 {
        law_edits_keep_step(ui, ops.drop_last());
        law_edit_keeps_step(run(ui, ops.drop_last()), ops.last());
    }
}

// ---------------------------------------------------------------------------
// Member rows
// ---------------------------------------------------------------------------

proof fn lemma_run_removals(ui: UiView, shown: Seq<RowView>, n: int)
    requires
        0 <= n <= ui.members.len(),
    ensures
        run(ui, removals(ui.members, shown, n)) == (UiView {
            members: ui.members.take(n) + ui.members.skip(n).filter(stays(shown)),
            ..ui
        }),
        all_fit(ui, removals(ui.members, shown, n)),
    decreases ui.members.len() - n,
{
    let ms = ui.members;
    if n == ms.len() {
        reveal(Seq::filter);
        assert(ms.take(n) + ms.skip(n).filter(stays(shown)) =~= ms);
    } else {
        lemma_run_removals(ui, shown, n + 1);
        let m = ms[n];
        let tail = ms.skip(n + 1);
        assert(ms.skip(n) == seq![m] + tail);
        tail.lemma_filter_prepend(m, stays(shown));
        assert(ms.take(n + 1) == ms.take(n).push(m));
        let mid = ms.take(n + 1) + tail.filter(stays(shown));
        if has_ip(shown, m.ip) {
            assert(stays(shown)(m));
            assert(mid =~= ms.take(n) + ms.skip(n).filter(stays(shown)));
        } else {
            assert(!stays(shown)(m));
            let ops = removals(ms, shown, n + 1);
            let op = OpView::RemoveMember { index: n };
            assert(ops.push(op).drop_last() == ops);
            assert(mid.remove(n) =~= ms.take(n) + ms.skip(n).filter(stays(shown)));
        }
    }
}

proof fn lemma_run_relabels(ui: UiView, shown: Seq<RowView>, k: int)
    requires
        0 <= k <= ui.members.len(),
    ensures
        run(ui, relabels(ui.members, shown).take(k)) == (UiView {
            members: ui.members.map_values(relabel(shown)).take(k) + ui.members.skip(k),
            ..ui
        }),
        all_fit(ui, relabels(ui.members, shown).take(k)),
    decreases k,
{
    let ms = ui.members;
    let done = ms.map_values(relabel(shown));
    let ops = relabels(ms, shown);
    if k == 0 {
        assert(done.take(0) + ms.skip(0) =~= ms);
    } else {
        lemma_run_relabels(ui, shown, k - 1);
        assert(ops.take(k).drop_last() == ops.take(k - 1));
        let mid = done.take(k - 1) + ms.skip(k - 1);
        assert(mid[k - 1] == ms[k - 1]);
        assert(mid.update(k - 1, done[k - 1]) =~= done.take(k) + ms.skip(k));
    }
}

proof fn lemma_run_insertions(
    ui: UiView,
    have: Seq<MemberView>,
    shown: Seq<RowView>,
    k: int,
)
    requires
        0 <= k <= shown.len(),
        ui.members.len() == have.len(),
    ensures
        run(ui, insertions(have, shown, k)) == (UiView {
            members: ui.members + new_members(have, shown, k),
            ..ui
        }),
        all_fit(ui, insertions(have, shown, k)),
    decreases k,
{
    if k == 0 {
        assert(ui.members + new_members(have, shown, k) =~= ui.members);
    } else {
        lemma_run_insertions(ui, have, shown, k - 1);
        let prev = new_members(have, shown, k - 1);
        let ops = insertions(have, shown, k - 1);
        let row = shown[k - 1];
        if !has_member(have + prev, row.ip) {
            let op = insertion((have.len() + prev.len()) as int, row);
            assert(ops.push(op).drop_last() == ops);
            assert((ui.members + prev).push(as_member(row)) =~= ui.members + prev.push(
                as_member(row),
            ));
        }
    }
}

/// Making all the edits of [`member_ops`] leaves exactly the member rows that
/// are to be shown: those that were there before in the order they had, then
/// the new ones, all with their present labels, and the trailer if rows are
/// left out. Each edit can be made when its turn comes.
pub proof fn law_member_edits_reconcile(ui: UiView, net: NetworkView)
    ensures
        run(ui, member_ops(ui, net)) == reconciled(ui, net),
        all_fit(ui, member_ops(ui, net)),
{
    let shown = shown_rows(net);
    let kept = ui.members.filter(stays(shown));
    let a = removals(ui.members, shown, 0);
    let b = relabels(kept, shown);
    let c = insertions(kept, shown, shown.len() as int);
    let d = trailer_ops(
        ui.more,
        more_of(net),
        reconciled_members(ui.members, shown).len() as int,
    );
    lemma_run_removals(ui, shown, 0);
    assert(ui.members.skip(0) == ui.members);
    assert(ui.members.take(0) + kept == kept);
    let u1 = UiView { members: kept, ..ui };
    assert(run(ui, a) == u1);

    lemma_run_relabels(u1, shown, kept.len() as int);
    assert(b.take(kept.len() as int) == b);
    let fresh = kept.map_values(relabel(shown));
    assert(fresh.take(kept.len() as int) + kept.skip(kept.len() as int) == fresh);
    let u2 = UiView { members: fresh, ..ui };
    lemma_concat(ui, a, b);
    assert(run(ui, a + b) == u2);

    lemma_run_insertions(u2, kept, shown, shown.len() as int);
    let u3 = UiView { members: reconciled_members(ui.members, shown), ..ui };
    lemma_concat(ui, a + b, c);
    assert(run(ui, a + b + c) == u3);

    if d.len() > 0 {
        assert(d == seq![d[0]]);
        lemma_one(u3, d[0]);
    }
    lemma_concat(ui, a + b + c, d);
    assert(run(u3, d) == reconciled(ui, net));
}

/// What is known of the edits that take rows out.
proof fn lemma_removal_at(ms: Seq<MemberView>, shown: Seq<RowView>, n: int, k: int) -> (i: int)
    requires
        0 <= n <= ms.len(),
        0 <= k < removals(ms, shown, n).len(),
    ensures
        n <= i < ms.len(),
        removals(ms, shown, n)[k] == (OpView::RemoveMember { index: i }),
        !has_ip(shown, ms[i].ip),
        removals(ms, shown, n).take(k) == removals(ms, shown, i + 1),
    decreases ms.len() - n,
{
    let prev = removals(ms, shown, n + 1);
    if k < prev.len() {
        let i = lemma_removal_at(ms, shown, n + 1, k);
        assert(removals(ms, shown, n).take(k) == prev.take(k));
        i
    } else {
        assert(removals(ms, shown, n).take(k) == prev);
        n
    }
}

/// The native item of a row whose address is still to be shown is never taken
/// out: an edit that takes out a row takes out one whose address is not among
/// those to be shown.
pub proof fn law_shown_rows_keep_their_item(ui: UiView, net: NetworkView, k: int)
    requires
        0 <= k < member_ops(ui, net).len(),
        member_ops(ui, net)[k] is RemoveMember,
    ensures
        ({
            let index = member_ops(ui, net)[k]->RemoveMember_index;
            let now = run(ui, member_ops(ui, net).take(k)).members;
            &&& 0 <= index < now.len()
            &&& !has_ip(shown_rows(net), now[index].ip)
        }),
{
    let shown = shown_rows(net);
    let kept = ui.members.filter(stays(shown));
    let ops = member_ops(ui, net);
    let a = removals(ui.members, shown, 0);
    let b = relabels(kept, shown);
    let c = insertions(kept, shown, shown.len() as int);
    lemma_insertions_insert(kept, shown, shown.len() as int);
    if k < a.len() {
        assert(ops[k] == a[k]);
        let i = lemma_removal_at(ui.members, shown, 0, k);
        assert(ops.take(k) == a.take(k));
        lemma_run_removals(ui, shown, i + 1);
        let now = run(ui, ops.take(k)).members;
        assert(now == ui.members.take(i + 1) + ui.members.skip(i + 1).filter(stays(shown)));
        assert(now[i] == ui.members[i]);
    } else if k < a.len() + b.len() {
        assert(ops[k] == b[k - a.len()]);
    } else if k < a.len() + b.len() + c.len() {
        assert(ops[k] == c[k - a.len() - b.len()]);
    }
}

proof fn lemma_insertions_insert(have: Seq<MemberView>, shown: Seq<RowView>, k: int)
    requires
        0 <= k <= shown.len(),
    ensures
        forall|i: int|
            0 <= i < insertions(have, shown, k).len() ==> #[trigger] insertions(
                have,
                shown,
                k,
            )[i] is InsertMember,
    decreases k,
{
    if k > 0 {
        lemma_insertions_insert(have, shown, k - 1);
    }
}

/// No two member rows have the same address.
pub open spec fn distinct(members: Seq<MemberView>) -> bool {
    forall|i: int, j: int|
        0 <= i < j < members.len() ==> (#[trigger] members[i]).ip != (#[trigger] members[j]).ip
}

/// No two rows have the same address.
pub open spec fn distinct_rows(rows: Seq<RowView>) -> bool {
    forall|i: int, j: int|
        0 <= i < j < rows.len() ==> (#[trigger] rows[i]).ip != (#[trigger] rows[j]).ip
}

proof fn lemma_label_first(rows: Seq<RowView>, j: int)
    requires
        0 <= j < rows.len(),
        forall|i: int| 0 <= i < j ==> (#[trigger] rows[i]).ip != rows[j].ip,
    ensures
        label_for(rows, rows[j].ip) == rows[j].label,
    decreases rows.len(),
{
    if j > 0 {
        assert(rows[0].ip != rows[j].ip);
        let t = rows.skip(1);
        assert forall|i: int| 0 <= i < j - 1 implies (#[trigger] t[i]).ip != t[j - 1].ip by {
            assert(rows[i + 1].ip != rows[j].ip);
        }
        lemma_label_first(t, j - 1);
    }
}

proof fn lemma_new_members(have: Seq<MemberView>, shown: Seq<RowView>, k: int)
    requires
        0 <= k <= shown.len(),
    ensures
        forall|j: int|
            0 <= j < k ==> has_member(
                have + new_members(have, shown, k),
                (#[trigger] shown[j]).ip,
            ),
        forall|i: int|
            0 <= i < new_members(have, shown, k).len() ==> {
                let m = #[trigger] new_members(have, shown, k)[i];
                has_ip(shown, m.ip) && m.label == label_for(shown, m.ip)
            },
        distinct(have) ==> distinct(have + new_members(have, shown, k)),
    decreases k,
{
    if k == 0 {
        assert(have + new_members(have, shown, k) == have);
    } else {
        lemma_new_members(have, shown, k - 1);
        let prev = new_members(have, shown, k - 1);
        let row = shown[k - 1];
        let cur = new_members(have, shown, k);
        if !has_member(have + prev, row.ip) {
            assert(have + cur == (have + prev).push(as_member(row)));
            assert((have + cur).last() == as_member(row));
            assert forall|j: int| 0 <= j < k implies has_member(
                have + cur,
                (#[trigger] shown[j]).ip,
            ) by {
                if j < k - 1 {
                    assert(has_member(have + prev, shown[j].ip));
                    let i = choose|i: int|
                        0 <= i < (have + prev).len() && (#[trigger] (have + prev)[i]).ip
                            == shown[j].ip;
                    assert((have + cur)[i].ip == shown[j].ip);
                } else {
                    assert((have + cur)[(have + prev).len() as int].ip == row.ip);
                }
            }
            assert forall|i: int| 0 <= i < k - 1 implies (#[trigger] shown[i]).ip != row.ip by {
                assert(has_member(have + prev, shown[i].ip));
            }
            lemma_label_first(shown, k - 1);
            if distinct(have) {
                assert forall|i: int, j: int| 0 <= i < j < (have + cur).len() implies (
                #[trigger] (have + cur)[i]).ip != (#[trigger] (have + cur)[j]).ip by {
                    assert((have + prev)[i] == (have + cur)[i]);
                    if j < (have + prev).len() {
                        assert((have + prev)[j] == (have + cur)[j]);
                    }
                }
            }
        }
    }
}

/// The rows that stay, before and after they get their present labels.
proof fn lemma_kept(ms: Seq<MemberView>, shown: Seq<RowView>)
    ensures
        ({
            let kept = ms.filter(stays(shown));
            let fresh = kept.map_values(relabel(shown));
            &&& fresh.len() == kept.len()
            &&& forall|i: int|
                0 <= i < kept.len() ==> {
                    &&& (#[trigger] fresh[i]).ip == kept[i].ip
                    &&& has_ip(shown, kept[i].ip)
                    &&& fresh[i].label == label_for(shown, kept[i].ip)
                }
            &&& distinct(ms) ==> distinct(kept)
        }),
{
    let p = stays(shown);
    let kept = ms.filter(p);
    let fresh = kept.map_values(relabel(shown));
    assert forall|i: int| 0 <= i < kept.len() implies {
        &&& (#[trigger] fresh[i]).ip == kept[i].ip
        &&& has_ip(shown, kept[i].ip)
        &&& fresh[i].label == label_for(shown, kept[i].ip)
    } by {
        ms.lemma_filter_pred(p, i);
        assert(p(kept[i]));
    }
    if distinct(ms) {
        lemma_filter_distinct(ms, shown);
    }
}

proof fn lemma_filter_distinct(ms: Seq<MemberView>, shown: Seq<RowView>)
    requires
        distinct(ms),
    ensures
        distinct(ms.filter(stays(shown))),
        forall|i: int|
            0 <= i < ms.filter(stays(shown)).len() ==> has_member(
                ms,
                (#[trigger] ms.filter(stays(shown))[i]).ip,
            ),
    decreases ms.len(),
{
    reveal(Seq::filter);
    let p = stays(shown);
    if ms.len() > 0 {
        let t = ms.drop_last();
        let kept = ms.filter(p);
        let u = t.filter(p);
        assert(distinct(t)) by {
            assert forall|i: int, j: int| 0 <= i < j < t.len() implies (#[trigger] t[i]).ip != (
            #[trigger] t[j]).ip by {
                assert(ms[i].ip != ms[j].ip);
            }
        }
        lemma_filter_distinct(t, shown);
        assert forall|i: int| 0 <= i < u.len() implies (#[trigger] u[i]).ip != ms.last().ip by {
            assert(has_member(t, u[i].ip));
            let j = choose|j: int| 0 <= j < t.len() && (#[trigger] t[j]).ip == u[i].ip;
            assert(ms[j].ip != ms[ms.len() - 1].ip);
        }
        assert forall|i: int| 0 <= i < kept.len() implies has_member(
            ms,
            (#[trigger] kept[i]).ip,
        ) by {
            if i < u.len() {
                assert(kept[i] == u[i]);
                let j = choose|j: int| 0 <= j < t.len() && (#[trigger] t[j]).ip == u[i].ip;
                assert(ms[j].ip == kept[i].ip);
            } else {
                assert(ms[ms.len() - 1].ip == kept[i].ip);
            }
        }
    }
}

/// After an update the submenu shows a row for an address exactly where one is
/// to be shown, and each row carries the present label of its address.
pub proof fn law_update_shows_what_is_desired(ui: UiView, net: NetworkView)
    ensures
        forall|ip: Ipv4| #[trigger]
            has_member(reconciled(ui, net).members, ip) == has_ip(shown_rows(net), ip),
        forall|i: int|
            0 <= i < reconciled(ui, net).members.len() ==> (#[trigger] reconciled(
                ui,
                net,
            ).members[i]).label == label_for(
                shown_rows(net),
                reconciled(ui, net).members[i].ip,
            ),
{
    let shown = shown_rows(net);
    let ms = ui.members;
    let kept = ms.filter(stays(shown));
    let fresh = kept.map_values(relabel(shown));
    let added = new_members(kept, shown, shown.len() as int);
    let all = reconciled_members(ms, shown);
    lemma_kept(ms, shown);
    lemma_new_members(kept, shown, shown.len() as int);
    assert forall|i: int| 0 <= i < all.len() implies {
        &&& has_ip(shown, (#[trigger] all[i]).ip)
        &&& all[i].label == label_for(shown, all[i].ip)
        &&& all[i].ip == (kept + added)[i].ip
    } by {
        if i < fresh.len() {
            assert(all[i] == fresh[i]);
            assert((kept + added)[i] == kept[i]);
        } else {
            assert(all[i] == added[i - fresh.len()]);
            assert((kept + added)[i] == added[i - fresh.len()]);
        }
    }
    assert forall|ip: Ipv4| #[trigger] has_member(all, ip) == has_ip(shown, ip) by {
        if has_ip(shown, ip) {
            let j = choose|j: int| 0 <= j < shown.len() && (#[trigger] shown[j]).ip == ip;
            assert(has_member(kept + added, shown[j].ip));
            let i = choose|i: int|
                0 <= i < (kept + added).len() && (#[trigger] (kept + added)[i]).ip == ip;
            assert(all[i].ip == ip);
        }
    }
}

/// An update keeps the addresses of the member rows distinct, and then shows
/// no more than the greatest number of rows.
pub proof fn law_update_keeps_rows_distinct(ui: UiView, net: NetworkView)
    requires
        distinct(ui.members),
    ensures
        distinct(reconciled(ui, net).members),
        reconciled(ui, net).members.len() <= MAX_MEMBER_ROWS,
{
    let shown = shown_rows(net);
    let ms = ui.members;
    let kept = ms.filter(stays(shown));
    let fresh = kept.map_values(relabel(shown));
    let added = new_members(kept, shown, shown.len() as int);
    let all = reconciled_members(ms, shown);
    lemma_kept(ms, shown);
    lemma_new_members(kept, shown, shown.len() as int);
    assert forall|i: int, j: int| 0 <= i < j < all.len() implies (#[trigger] all[i]).ip != (
    #[trigger] all[j]).ip by {
        let both = kept + added;
        assert(both[i].ip != both[j].ip);
        if i < fresh.len() {
            assert(all[i] == fresh[i]);
        }
        if j < fresh.len() {
            assert(all[j] == fresh[j]);
        }
    }
    law_update_shows_what_is_desired(ui, net);
    let ips = all.map_values(|m: MemberView| m.ip);
    let wanted = shown.map_values(|r: RowView| r.ip);
    assert(ips.no_duplicates()) by {
        assert forall|i: int, j: int| 0 <= i < j < ips.len() implies ips[i] != ips[j] by {
            assert(all[i].ip != all[j].ip);
        }
    }
    assert(ips.to_set().subset_of(wanted.to_set())) by {
        assert forall|ip: Ipv4| ips.to_set().contains(ip) implies wanted.to_set().contains(ip) by {
            let i = choose|i: int| 0 <= i < ips.len() && ips[i] == ip;
            assert(all[i].ip == ip);
            assert(has_member(all, ip));
            let j = choose|j: int| 0 <= j < shown.len() && (#[trigger] shown[j]).ip == ip;
            assert(wanted[j] == ip);
        }
    }
    ips.unique_seq_to_set();
    wanted.lemma_cardinality_of_set();
    vstd::set_lib::lemma_len_subset(ips.to_set(), wanted.to_set());
}

proof fn lemma_filter_all(ms: Seq<MemberView>, shown: Seq<RowView>)
    requires
        forall|i: int| 0 <= i < ms.len() ==> has_ip(shown, (#[trigger] ms[i]).ip),
    ensures
        ms.filter(stays(shown)) == ms,
    decreases ms.len(),
{
    reveal(Seq::filter);
    if ms.len() > 0 {
        let t = ms.drop_last();
        assert forall|i: int| 0 <= i < t.len() implies has_ip(shown, (#[trigger] t[i]).ip) by {
            assert(has_ip(shown, ms[i].ip));
        }
        lemma_filter_all(t, shown);
        assert(has_ip(shown, ms[ms.len() - 1].ip));
        assert(t.push(ms.last()) == ms);
    } else {
        assert(ms.filter(stays(shown)) == ms);
    }
}

proof fn lemma_none_new(have: Seq<MemberView>, shown: Seq<RowView>, k: int)
    requires
        0 <= k <= shown.len(),
        forall|j: int| 0 <= j < shown.len() ==> has_member(have, (#[trigger] shown[j]).ip),
    ensures
        new_members(have, shown, k) == Seq::<MemberView>::empty(),
    decreases k,
{
    if k > 0 {
        lemma_none_new(have, shown, k - 1);
        assert(have + Seq::<MemberView>::empty() == have);
        assert(has_member(have, shown[k - 1].ip));
    }
}

/// Member rows that are already as they are to be shown stay as they are.
proof fn lemma_up_to_date(ms: Seq<MemberView>, shown: Seq<RowView>)
    requires
        forall|i: int|
            0 <= i < ms.len() ==> {
                &&& has_ip(shown, (#[trigger] ms[i]).ip)
                &&& ms[i].label == label_for(shown, ms[i].ip)
            },
        forall|j: int| 0 <= j < shown.len() ==> has_member(ms, (#[trigger] shown[j]).ip),
    ensures
        reconciled_members(ms, shown) == ms,
{
    lemma_filter_all(ms, shown);
    lemma_none_new(ms, shown, shown.len() as int);
    assert(ms.map_values(relabel(shown)) =~= ms);
    assert(reconciled_members(ms, shown) =~= ms);
}

/// What an update leaves is up to date.
proof fn lemma_reconciled(ui: UiView, net: NetworkView)
    ensures
        ({
            let shown = shown_rows(net);
            let all = reconciled(ui, net).members;
            &&& forall|i: int|
                0 <= i < all.len() ==> {
                    &&& has_ip(shown, (#[trigger] all[i]).ip)
                    &&& all[i].label == label_for(shown, all[i].ip)
                }
            &&& forall|j: int|
                0 <= j < shown.len() ==> has_member(all, (#[trigger] shown[j]).ip)
        }),
{
    let shown = shown_rows(net);
    let all = reconciled(ui, net).members;
    law_update_shows_what_is_desired(ui, net);
    assert forall|i: int| 0 <= i < all.len() implies {
        &&& has_ip(shown, (#[trigger] all[i]).ip)
        &&& all[i].label == label_for(shown, all[i].ip)
    } by {
        assert(has_member(all, all[i].ip));
    }
    assert forall|j: int| 0 <= j < shown.len() implies has_member(
        all,
        (#[trigger] shown[j]).ip,
    ) by {
        assert(has_ip(shown, shown[j].ip));
    }
}

/// A second update with the same status changes nothing.
pub proof fn law_update_is_idempotent(ui: UiView, net: NetworkView)
    ensures
        reconciled(reconciled(ui, net), net) == reconciled(ui, net),
{
    lemma_reconciled(ui, net);
    lemma_up_to_date(reconciled(ui, net).members, shown_rows(net));
}

proof fn lemma_no_removals(ms: Seq<MemberView>, shown: Seq<RowView>, n: int)
    requires
        0 <= n <= ms.len(),
        forall|i: int| 0 <= i < ms.len() ==> has_ip(shown, (#[trigger] ms[i]).ip),
    ensures
        removals(ms, shown, n) == Seq::<OpView>::empty(),
    decreases ms.len() - n,
{
    if n < ms.len() {
        lemma_no_removals(ms, shown, n + 1);
        assert(has_ip(shown, ms[n].ip));
    }
}

proof fn lemma_no_insertions(have: Seq<MemberView>, shown: Seq<RowView>, k: int)
    requires
        0 <= k <= shown.len(),
        forall|j: int| 0 <= j < shown.len() ==> has_member(have, (#[trigger] shown[j]).ip),
    ensures
        insertions(have, shown, k) == Seq::<OpView>::empty(),
    decreases k,
{
    if k > 0 {
        lemma_no_insertions(have, shown, k - 1);
        lemma_none_new(have, shown, k - 1);
        assert(have + Seq::<MemberView>::empty() == have);
        assert(has_member(have, shown[k - 1].ip));
    }
}

/// A second update with the same status takes no native item out and puts none
/// in: it only sets texts.
pub proof fn law_second_update_only_sets_texts(ui: UiView, net: NetworkView)
    ensures
        ({
            let ops = member_ops(reconciled(ui, net), net);
            forall|i: int|
                0 <= i < ops.len() ==> (#[trigger] ops[i]) is RelabelMember
                    || ops[i] is RelabelMore
        }),
        chrome_ops(with_chrome(ui, net), net) == seq![
            OpView::SetTitle { text: header_text(net) },
        ],
{
    let shown = shown_rows(net);
    let all = reconciled(ui, net).members;
    lemma_reconciled(ui, net);
    lemma_no_removals(all, shown, 0);
    lemma_filter_all(all, shown);
    lemma_no_insertions(all, shown, shown.len() as int);
    let ops = member_ops(reconciled(ui, net), net);
    let relabelled = relabels(all, shown);
    let trailer = trailer_ops(
        more_of(net),
        more_of(net),
        reconciled_members(all, shown).len() as int,
    );
    assert(ops =~= relabelled + trailer);
    assert forall|i: int| 0 <= i < ops.len() implies (#[trigger] ops[i]) is RelabelMember
        || ops[i] is RelabelMore by {
        if i < relabelled.len() {
            assert(ops[i] == relabelled[i]);
        } else {
            assert(ops[i] == trailer[i - relabelled.len()]);
        }
    }
    assert(chrome_ops(with_chrome(ui, net), net) =~= seq![
        OpView::SetTitle { text: header_text(net) },
    ]);
}

proof fn lemma_built(net: NetworkView)
    requires
        distinct_rows(shown_rows(net)),
    ensures
        forall|i: int|
            0 <= i < built_ui(net).members.len() ==> {
                &&& has_ip(shown_rows(net), (#[trigger] built_ui(net).members[i]).ip)
                &&& built_ui(net).members[i].label == label_for(
                    shown_rows(net),
                    built_ui(net).members[i].ip,
                )
            },
        forall|j: int|
            0 <= j < shown_rows(net).len() ==> has_member(
                built_ui(net).members,
                (#[trigger] shown_rows(net)[j]).ip,
            ),
{
    let shown = shown_rows(net);
    let all = built_ui(net).members;
    assert forall|i: int| 0 <= i < all.len() implies {
        &&& has_ip(shown, (#[trigger] all[i]).ip)
        &&& all[i].label == label_for(shown, all[i].ip)
    } by {
        assert(all[i] == as_member(shown[i]));
        lemma_label_first(shown, i);
    }
    assert forall|j: int| 0 <= j < shown.len() implies has_member(
        all,
        (#[trigger] shown[j]).ip,
    ) by {
        assert(all[j] == as_member(shown[j]));
    }
}

/// An update right after a menu was built from the same status changes nothing,
/// as long as the addresses shown are distinct.
pub proof fn law_update_after_build(net: NetworkView)
    requires
        distinct_rows(shown_rows(net)),
    ensures
        reconciled(built_ui(net), net) == built_ui(net),
{
    lemma_built(net);
    lemma_up_to_date(built_ui(net).members, shown_rows(net));
}

/// An update shows the same rows as building the submenu from scratch would,
/// though maybe in another order, and the same trailer, as long as the
/// addresses shown are distinct.
pub proof fn law_update_matches_build(ui: UiView, net: NetworkView)
    requires
        distinct_rows(shown_rows(net)),
    ensures
        reconciled(ui, net).more == built_ui(net).more,
        forall|m: MemberView| #[trigger]
            reconciled(ui, net).members.contains(m) == built_ui(net).members.contains(m),
{
    let shown = shown_rows(net);
    let all = reconciled(ui, net).members;
    let built = built_ui(net).members;
    law_update_shows_what_is_desired(ui, net);
    lemma_built(net);
    assert forall|m: MemberView| #[trigger] all.contains(m) == built.contains(m) by {
        if all.contains(m) {
            let i = choose|i: int| 0 <= i < all.len() && all[i] == m;
            assert(all[i].label == label_for(shown, m.ip));
            assert(has_member(all, m.ip));
            let j = choose|j: int| 0 <= j < shown.len() && (#[trigger] shown[j]).ip == m.ip;
            assert(built[j] == as_member(shown[j]));
            assert(built[j] == m);
        }
        if built.contains(m) {
            let j = choose|j: int| 0 <= j < built.len() && built[j] == m;
            assert(built[j].label == label_for(shown, m.ip));
            assert(has_member(all, m.ip));
            let i = choose|i: int| 0 <= i < all.len() && (#[trigger] all[i]).ip == m.ip;
            assert(all[i] == m);
        }
    }
}

// ---------------------------------------------------------------------------
// Title and toggle
// ---------------------------------------------------------------------------

/// The submenu once its title and its toggle are brought up to date.
pub open spec fn with_chrome(ui: UiView, net: NetworkView) -> UiView {
    UiView {
        title: header_text(net),
        active: net.active,
        toggle_shown: ui.toggle_shown || net.active != ui.active,
        ..ui
    }
}

/// Making all the edits of [`chrome_ops`] leaves the present title and a toggle
/// made for the present state, and each edit can be made when its turn comes.
pub proof fn law_chrome_edits(ui: UiView, net: NetworkView)
    requires
        ui.toggle_shown,
        ui.key == net.network,
    ensures
        run(ui, chrome_ops(ui, net)) == with_chrome(ui, net),
        all_fit(ui, chrome_ops(ui, net)),
{
    let ops = chrome_ops(ui, net);
    let u1 = UiView { title: header_text(net), ..ui };
    lemma_one(ui, ops[0]);
    if net.active != ui.active {
        let u2 = UiView { toggle_shown: false, ..u1 };
        lemma_one(u1, ops[1]);
        lemma_one(u2, ops[2]);
        lemma_concat(ui, seq![ops[0]], seq![ops[1]]);
        lemma_concat(ui, seq![ops[0]] + seq![ops[1]], seq![ops[2]]);
        assert(ops == seq![ops[0]] + seq![ops[1]] + seq![ops[2]]);
    } else {
        assert(ops == seq![ops[0]]);
    }
}

/// A whole update of a submenu, of its rows and then of its title and toggle,
/// turns the native entries that stood for its former state into those that
/// stand for its new one. But for the order of the rows, the result is the
/// submenu that would be built from scratch.
pub proof fn law_whole_update(ui: UiView, net: NetworkView)
    requires
        ui.toggle_shown,
        ui.key == net.network,
    ensures
        ({
            let mid = reconciled(ui, net);
            let end = with_chrome(mid, net);
            &&& all_edited(layout(ui), ui, member_ops(ui, net)) == layout(mid)
            &&& all_edited(layout(mid), mid, chrome_ops(mid, net)) == layout(end)
            &&& end == UiView { members: end.members, ..built_ui(net) }
        }),
{
    let mid = reconciled(ui, net);
    law_member_edits_reconcile(ui, net);
    law_edits_keep_step(ui, member_ops(ui, net));
    law_chrome_edits(mid, net);
    law_edits_keep_step(mid, chrome_ops(mid, net));
}

proof fn lemma_fits_at(ui: UiView, ops: Seq<OpView>, k: int)
    requires
        all_fit(ui, ops),
        0 <= k < ops.len(),
    ensures
        fits(run(ui, ops.take(k)), ops[k]),
    decreases ops.len(),
{
    if k == ops.len() - 1 {
        assert(ops.take(k) == ops.drop_last());
    } else {
        lemma_fits_at(ui, ops.drop_last(), k);
        assert(ops.drop_last().take(k) == ops.take(k));
    }
}

/// When the turn of an edit comes, the rows that it names are there: each edit
/// can be recorded once those before it are.
pub proof fn law_edits_can_be_recorded(ui: UiView, net: NetworkView, k: int)
    ensures
        0 <= k < member_ops(ui, net).len() ==> in_range(
            run(ui, member_ops(ui, net).take(k)),
            member_ops(ui, net)[k],
        ),
        0 <= k < chrome_ops(ui, net).len() ==> in_range(
            run(ui, chrome_ops(ui, net).take(k)),
            chrome_ops(ui, net)[k],
        ),
{
    law_member_edits_reconcile(ui, net);
    if 0 <= k < member_ops(ui, net).len() {
        lemma_fits_at(ui, member_ops(ui, net), k);
    }
}

// ---------------------------------------------------------------------------
// Which rows stay, which come, and where
// ---------------------------------------------------------------------------

/// The addresses of a list of rows.
pub open spec fn row_ips(rows: Seq<RowView>) -> Seq<Ipv4> {
    rows.map_values(|r: RowView| r.ip)
}

/// The addresses of a list of member rows.
pub open spec fn member_ips(members: Seq<MemberView>) -> Seq<Ipv4> {
    members.map_values(|m: MemberView| m.ip)
}

/// A row with an address is there exactly where the address is among those of the
/// rows.
pub proof fn law_has_address(rows: Seq<RowView>, members: Seq<MemberView>, ip: Ipv4)
    ensures
        has_ip(rows, ip) <==> row_ips(rows).contains(ip),
        has_member(members, ip) <==> member_ips(members).contains(ip),
{
    if row_ips(rows).contains(ip) {
        let i = choose|i: int| 0 <= i < row_ips(rows).len() && row_ips(rows)[i] == ip;
        assert(rows[i].ip == ip);
    }
    if has_ip(rows, ip) {
        let i = choose|i: int| 0 <= i < rows.len() && (#[trigger] rows[i]).ip == ip;
        assert(row_ips(rows)[i] == ip);
    }
    if member_ips(members).contains(ip) {
        let i = choose|i: int| 0 <= i < member_ips(members).len() && member_ips(members)[i] == ip;
        assert(members[i].ip == ip);
    }
    if has_member(members, ip) {
        let i = choose|i: int| 0 <= i < members.len() && (#[trigger] members[i]).ip == ip;
        assert(member_ips(members)[i] == ip);
    }
}

/// The label for an address is that of the first row with the address.
pub proof fn law_label_of_first_row(rows: Seq<RowView>, j: int)
    requires
        0 <= j < rows.len(),
        forall|i: int| 0 <= i < j ==> (#[trigger] rows[i]).ip != rows[j].ip,
    ensures
        label_for(rows, rows[j].ip) == rows[j].label,
{
    lemma_label_first(rows, j);
}

/// The rows that stay are those whose address is among the addresses to be shown;
/// they come first, in the order they had.
pub proof fn law_rows_that_stay_keep_their_order(ui: UiView, net: NetworkView)
    ensures
        ({
            let kept = ui.members.filter(
                |m: MemberView| row_ips(shown_rows(net)).contains(m.ip),
            );
            let now = reconciled(ui, net).members;
            &&& kept.len() <= now.len()
            &&& forall|i: int| 0 <= i < kept.len() ==> (#[trigger] now[i]).ip == kept[i].ip
        }),
{
    let shown = shown_rows(net);
    lemma_stays(shown);
    lemma_kept(ui.members, shown);
    let kept = ui.members.filter(stays(shown));
    let fresh = kept.map_values(relabel(shown));
    let now = reconciled(ui, net).members;
    assert forall|i: int| 0 <= i < kept.len() implies (#[trigger] now[i]).ip == kept[i].ip by {
        assert(now[i] == fresh[i]);
    }
}

proof fn lemma_stays(shown: Seq<RowView>)
    ensures
        stays(shown) == (|m: MemberView| row_ips(shown).contains(m.ip)),
{
    let p = |m: MemberView| row_ips(shown).contains(m.ip);
    assert forall|m: MemberView| #[trigger] stays(shown)(m) == p(m) by {
        law_has_address(shown, seq![m], m.ip);
    }
    assert(stays(shown) =~= p);
}

proof fn lemma_kept_has(ms: Seq<MemberView>, shown: Seq<RowView>, ip: Ipv4)
    requires
        has_ip(shown, ip),
    ensures
        has_member(ms.filter(stays(shown)), ip) == has_member(ms, ip),
{
    let kept = ms.filter(stays(shown));
    if has_member(ms, ip) {
        let i = choose|i: int| 0 <= i < ms.len() && (#[trigger] ms[i]).ip == ip;
        assert(stays(shown)(ms[i]));
        ms.lemma_filter_contains(stays(shown), i);
        let j = choose|j: int| 0 <= j < kept.len() && kept[j] == ms[i];
        assert(kept[j].ip == ip);
    }
    if has_member(kept, ip) {
        let j = choose|j: int| 0 <= j < kept.len() && (#[trigger] kept[j]).ip == ip;
        assert(kept.contains(kept[j]));
        ms.lemma_filter_contains_rev(stays(shown), kept[j]);
        let i = choose|i: int| 0 <= i < ms.len() && ms[i] == kept[j];
        assert(ms[i].ip == ip);
    }
}

/// The rows that were not there before follow, as they are and in the order in
/// which they are to be shown, as long as the addresses shown are distinct.
pub proof fn law_new_rows_follow_in_order(ui: UiView, net: NetworkView)
    requires
        distinct_rows(shown_rows(net)),
    ensures
        ({
            let kept = ui.members.filter(
                |m: MemberView| row_ips(shown_rows(net)).contains(m.ip),
            );
            let fresh = shown_rows(net).filter(
                |r: RowView| !member_ips(ui.members).contains(r.ip),
            );
            let now = reconciled(ui, net).members;
            &&& now.len() == kept.len() + fresh.len()
            &&& forall|i: int|
                0 <= i < fresh.len() ==> {
                    &&& (#[trigger] now[kept.len() + i]).ip == fresh[i].ip
                    &&& now[kept.len() + i].label == fresh[i].label
                }
        }),
{
    let shown = shown_rows(net);
    let ms = ui.members;
    let kept = ms.filter(stays(shown));
    let q = |r: RowView| !member_ips(ms).contains(r.ip);
    lemma_stays(shown);
    lemma_new_are_filtered(ms, shown, shown.len() as int);
    assert(shown.take(shown.len() as int) == shown);
    let fresh = shown.filter(q);
    let now = reconciled(ui, net).members;
    assert forall|i: int| 0 <= i < fresh.len() implies {
        &&& (#[trigger] now[kept.len() + i]).ip == fresh[i].ip
        &&& now[kept.len() + i].label == fresh[i].label
    } by {
        assert(now[kept.len() + i] == new_members(kept, shown, shown.len() as int)[i]);
    }
}

proof fn lemma_new_are_filtered(ms: Seq<MemberView>, shown: Seq<RowView>, k: int)
    requires
        distinct_rows(shown),
        0 <= k <= shown.len(),
    ensures
        ({
            let q = |r: RowView| !member_ips(ms).contains(r.ip);
            new_members(ms.filter(stays(shown)), shown, k) == shown.take(k).filter(q).map_values(
                |r: RowView| as_member(r),
            )
        }),
    decreases k,
{
    let q = |r: RowView| !member_ips(ms).contains(r.ip);
    let f = |r: RowView| as_member(r);
    let kept = ms.filter(stays(shown));
    reveal(Seq::filter);
    if k == 0 {
        assert(shown.take(0).filter(q) =~= Seq::<RowView>::empty());
        assert(new_members(kept, shown, 0) =~= shown.take(0).filter(q).map_values(f));
    } else {
        lemma_new_are_filtered(ms, shown, k - 1);
        let row = shown[k - 1];
        let prev = new_members(kept, shown, k - 1);
        let before = shown.take(k - 1).filter(q);
        assert(shown.take(k).drop_last() == shown.take(k - 1));
        assert(shown.take(k).last() == row);
        assert(has_ip(shown, row.ip));
        lemma_kept_has(ms, shown, row.ip);
        law_has_address(shown, ms, row.ip);
        if has_member(kept + prev, row.ip) && !has_member(kept, row.ip) {
            let i = choose|i: int|
                0 <= i < (kept + prev).len() && (#[trigger] (kept + prev)[i]).ip == row.ip;
            if i < kept.len() {
                assert(kept[i].ip == row.ip);
            } else {
                let m = prev[i - kept.len()];
                assert((kept + prev)[i] == m);
                let r = before[i - kept.len()];
                assert(m == as_member(r));
                assert(before.contains(r));
                let front = shown.take(k - 1);
                front.lemma_filter_contains_rev(q, r);
                let j = choose|j: int| 0 <= j < front.len() && front[j] == r;
                assert(shown[j].ip == shown[k - 1].ip);
            }
        }
        if has_member(kept, row.ip) {
            let i = choose|i: int| 0 <= i < kept.len() && (#[trigger] kept[i]).ip == row.ip;
            assert((kept + prev)[i].ip == row.ip);
            assert(!q(row));
        } else {
            assert(q(row));
            assert(before.push(row).map_values(f) =~= before.map_values(f).push(as_member(row)));
        }
    }
}

/// An update of the rows leaves the rest of the submenu as it was, and the trailer
/// as a submenu built from scratch has it.
pub proof fn law_update_of_rows_leaves_the_rest(ui: UiView, net: NetworkView)
    ensures
        reconciled(ui, net).key == ui.key,
        reconciled(ui, net).title == ui.title,
        reconciled(ui, net).active == ui.active,
        reconciled(ui, net).toggle_shown == ui.toggle_shown,
        reconciled(ui, net).more == more_of(net),
{
}

/// No edit is made that is not called for: a row is put in only where its address
/// was not there, a trailer only where there was none, and the trailer is taken
/// out only where none is left to show.
pub proof fn law_edits_are_called_for(ui: UiView, net: NetworkView, k: int)
    requires
        0 <= k < member_ops(ui, net).len(),
    ensures
        member_ops(ui, net)[k] matches OpView::InsertMember { ip, .. } ==> {
            &&& row_ips(shown_rows(net)).contains(ip)
            &&& !member_ips(ui.members).contains(ip)
        },
        member_ops(ui, net)[k] is InsertMore ==> ui.more is None && more_of(net) is Some,
        member_ops(ui, net)[k] is RemoveMore ==> ui.more is Some && more_of(net) is None,
        member_ops(ui, net)[k] is RelabelMore ==> ui.more is Some && more_of(net) is Some,
        !(member_ops(ui, net)[k] is SetTitle),
        !(member_ops(ui, net)[k] is RemoveToggle),
        !(member_ops(ui, net)[k] is InsertToggle),
{
    let shown = shown_rows(net);
    let kept = ui.members.filter(stays(shown));
    let ops = member_ops(ui, net);
    let a = removals(ui.members, shown, 0);
    let b = relabels(kept, shown);
    let c = insertions(kept, shown, shown.len() as int);
    let d = trailer_ops(
        ui.more,
        more_of(net),
        reconciled_members(ui.members, shown).len() as int,
    );
    if k < a.len() {
        assert(ops[k] == a[k]);
        let i = lemma_removal_at(ui.members, shown, 0, k);
    } else if k < a.len() + b.len() {
        assert(ops[k] == b[k - a.len()]);
    } else if k < a.len() + b.len() + c.len() {
        assert(ops[k] == c[k - a.len() - b.len()]);
        let ip = lemma_insertion_at(kept, shown, shown.len() as int, k - a.len() - b.len());
        lemma_kept_has(ui.members, shown, ip);
        law_has_address(shown, ui.members, ip);
    } else {
        assert(ops[k] == d[k - a.len() - b.len() - c.len()]);
    }
}

proof fn lemma_insertion_at(have: Seq<MemberView>, shown: Seq<RowView>, k: int, i: int) -> (ip:
    Ipv4)
    requires
        0 <= k <= shown.len(),
        0 <= i < insertions(have, shown, k).len(),
    ensures
        insertions(have, shown, k)[i] is InsertMember,
        insertions(have, shown, k)[i]->InsertMember_ip == ip,
        has_ip(shown, ip),
        !has_member(have, ip),
    decreases k,
{
    let prev = new_members(have, shown, k - 1);
    let ops = insertions(have, shown, k - 1);
    let row = shown[k - 1];
    if i < ops.len() {
        lemma_insertion_at(have, shown, k - 1, i)
    } else {
        assert(has_ip(shown, row.ip));
        if has_member(have, row.ip) {
            let j = choose|j: int| 0 <= j < have.len() && (#[trigger] have[j]).ip == row.ip;
            assert((have + prev)[j].ip == row.ip);
        }
        row.ip
    }
}

/// The title is always set; the toggle is replaced exactly where the state of the
/// network is another than the one it was made for, by one that offers the
/// opposite of the present state, at the same place.
pub proof fn law_title_and_toggle(ui: UiView, net: NetworkView)
    ensures
        ({
            let ops = chrome_ops(ui, net);
            let pos = ui.members.len() + (if ui.more is Some {
                1int
            } else {
                0int
            }) + 1;
            &&& ops[0] == (OpView::SetTitle { text: header_text(net) })
            &&& ui.active == net.active ==> ops.len() == 1
            &&& ui.active != net.active ==> ops.len() == 3 && ops[1] == OpView::RemoveToggle
            &&& ui.active && !net.active ==> ops[2] == (OpView::InsertToggle {
                pos,
                id: "resume:"@ + net.network,
                text: "Resume \""@ + net.network + "\""@,
                active: false,
            })
            &&& !ui.active && net.active ==> ops[2] == (OpView::InsertToggle {
                pos,
                id: "standby:"@ + net.network,
                text: "Standby \""@ + net.network + "\""@,
                active: true,
            })
        }),
{
}

/// Each edit changes what it names, and nothing else.
pub proof fn law_edit_changes_what_it_names(ui: UiView, i: int, text: Seq<char>, ip: Ipv4)
    requires
        0 <= i < ui.members.len(),
    ensures
        applied(ui, OpView::RemoveMember { index: i }) == (UiView {
            members: ui.members.take(i) + ui.members.skip(i + 1),
            ..ui
        }),
        applied(ui, OpView::RelabelMember { index: i, label: text }) == (UiView {
            members: ui.members.take(i) + seq![MemberView { ip: ui.members[i].ip, label: text }]
                + ui.members.skip(i + 1),
            ..ui
        }),
        applied(ui, insertion(i, RowView { label: text, ip, online: true })) == (UiView {
            members: ui.members + seq![MemberView { ip, label: text }],
            ..ui
        }),
        applied(ui, OpView::RelabelMore { text }) == (UiView { more: Some(text), ..ui }),
        applied(ui, OpView::InsertMore { pos: i, text }) == (UiView { more: Some(text), ..ui }),
        applied(ui, OpView::RemoveMore) == (UiView { more: None, ..ui }),
        applied(ui, OpView::SetTitle { text }) == (UiView { title: text, ..ui }),
        applied(ui, OpView::RemoveToggle) == (UiView { toggle_shown: false, ..ui }),
        applied(ui, OpView::InsertToggle { pos: i, id: text, text, active: true }) == (UiView {
            active: true,
            toggle_shown: true,
            ..ui
        }),
        applied(ui, OpView::InsertToggle { pos: i, id: text, text, active: false }) == (UiView {
            active: false,
            toggle_shown: true,
            ..ui
        }),
{
    assert(ui.members.remove(i) =~= ui.members.take(i) + ui.members.skip(i + 1));
    let m = MemberView { ip: ui.members[i].ip, label: text };
    assert(ui.members.update(i, m) =~= ui.members.take(i) + seq![m] + ui.members.skip(i + 1));
    let n = MemberView { ip, label: text };
    assert(ui.members.push(n) =~= ui.members + seq![n]);
}

/// The models of edits hold what the edits hold.
pub proof fn law_edit_models(index: usize, text: String, id: String, ip: Ipv4, active: bool)
    ensures
        (MenuOp::RemoveMember { index })@ == (OpView::RemoveMember { index: index as int }),
        (MenuOp::RelabelMember { index, label: text })@ == (OpView::RelabelMember {
            index: index as int,
            label: text@,
        }),
        (MenuOp::InsertMember { pos: index, ip, id, label: text })@ == (OpView::InsertMember {
            pos: index as int,
            ip,
            id: id@,
            label: text@,
        }),
        (MenuOp::RelabelMore { text })@ == (OpView::RelabelMore { text: text@ }),
        (MenuOp::InsertMore { pos: index, text })@ == (OpView::InsertMore {
            pos: index as int,
            text: text@,
        }),
        MenuOp::RemoveMore@ == OpView::RemoveMore,
        (MenuOp::SetTitle { text })@ == (OpView::SetTitle { text: text@ }),
        MenuOp::RemoveToggle@ == OpView::RemoveToggle,
        (MenuOp::InsertToggle { pos: index, id, text, active })@ == (OpView::InsertToggle {
            pos: index as int,
            id: id@,
            text: text@,
            active,
        }),
{
}

/// The models of a list of edits are those of the edits, in their order.
pub proof fn law_edit_list_models(ops: Seq<MenuOp>)
    ensures
        op_views(ops).len() == ops.len(),
        forall|i: int| 0 <= i < ops.len() ==> #[trigger] op_views(ops)[i] == ops[i]@,
{
}

} // verus!
