//! What the member rows of a network guarantee.
use crate::members::{
    desired_rows, dotted, host_text, member_rows, network_views, peer_row, peer_suffix, row_order,
    row_views, self_row, Ipv4, NetworkStatus, NetworkView, PeerStatus, PeerView, Row, RowView,
};
use crate::order::{
    antisymmetric_on, in_order, lemma_in_order_unique, lemma_sorted, lemma_text_le_total,
    lemma_text_le_transitive, text_le, total_preorder,
};
use crate::text::{all_digits, dec, digits_value, is_digit, joined, lemma_dec_value};
use vstd::prelude::*;

verus! {

proof fn lemma_split_at_dot(x1: Seq<char>, y1: Seq<char>, x2: Seq<char>, y2: Seq<char>)
    requires
        all_digits(x1),
        all_digits(x2),
        x1 + "."@ + y1 == x2 + "."@ + y2,
    ensures
        x1 == x2,
        y1 == y2,
{
    reveal_strlit(".");
    let all = x1 + "."@ + y1;
    assert(all[x1.len() as int] == '.');
    assert(all[x2.len() as int] == '.');
    if x1.len() < x2.len() {
        assert((x2 + "."@ + y2)[x1.len() as int] == x2[x1.len() as int]);
        assert(is_digit(x2[x1.len() as int]));
    } else if x2.len() < x1.len() {
        assert(all[x2.len() as int] == x1[x2.len() as int]);
        assert(is_digit(x1[x2.len() as int]));
    }
    assert(all.take(x1.len() as int) == x1);
    assert(all.take(x2.len() as int) == x2);
    assert(all.skip(x1.len() as int + 1) == y1);
    assert(all.skip(x2.len() as int + 1) == y2);
}

spec fn tail3(ip: Ipv4) -> Seq<char> {
    dec(ip.b as nat) + "."@ + tail2(ip)
}

spec fn tail2(ip: Ipv4) -> Seq<char> {
    dec(ip.c as nat) + "."@ + dec(ip.d as nat)
}

proof fn lemma_dotted_parts(ip: Ipv4)
    ensures
        dotted(ip) == dec(ip.a as nat) + "."@ + tail3(ip),
        all_digits(dec(ip.a as nat)),
        all_digits(dec(ip.b as nat)),
        all_digits(dec(ip.c as nat)),
        digits_value(dec(ip.a as nat)) == ip.a,
        digits_value(dec(ip.b as nat)) == ip.b,
        digits_value(dec(ip.c as nat)) == ip.c,
        digits_value(dec(ip.d as nat)) == ip.d,
{
    lemma_dec_value(ip.a as nat);
    lemma_dec_value(ip.b as nat);
    lemma_dec_value(ip.c as nat);
    lemma_dec_value(ip.d as nat);
    assert(dotted(ip) =~= dec(ip.a as nat) + "."@ + tail3(ip));
}

/// Two addresses with the same dotted form are the same.
pub proof fn law_dotted_names_address(p: Ipv4, q: Ipv4)
    requires
        dotted(p) == dotted(q),
    ensures
        p == q,
{
    lemma_dotted_parts(p);
    lemma_dotted_parts(q);
    lemma_split_at_dot(dec(p.a as nat), tail3(p), dec(q.a as nat), tail3(q));
    lemma_split_at_dot(dec(p.b as nat), tail2(p), dec(q.b as nat), tail2(q));
    lemma_split_at_dot(dec(p.c as nat), dec(p.d as nat), dec(q.c as nat), dec(q.d as nat));
}

spec fn no_space(s: Seq<char>) -> bool {
    forall|i: int| 0 <= i < s.len() ==> #[trigger] s[i] != ' ' && s[i] != ')'
}

proof fn lemma_no_space_concat(a: Seq<char>, b: Seq<char>)
    requires
        no_space(a),
        no_space(b),
    ensures
        no_space(a + b),
{
    assert forall|i: int| 0 <= i < (a + b).len() implies #[trigger] (a + b)[i] != ' ' && (a + b)[i]
        != ')' by {
        if i < a.len() {
            assert(a[i] != ' ' && a[i] != ')');
        } else {
            assert(b[i - a.len()] != ' ' && b[i - a.len()] != ')');
        }
    }
}

proof fn lemma_dec_no_space(n: nat)
    ensures
        no_space(dec(n)),
        dec(n).len() > 0,
{
    lemma_dec_value(n);
    assert forall|i: int| 0 <= i < dec(n).len() implies #[trigger] dec(n)[i] != ' ' && dec(n)[i]
        != ')' by {
        assert(is_digit(dec(n)[i]));
    }
}

proof fn lemma_dotted_no_space(ip: Ipv4)
    ensures
        no_space(dotted(ip)),
        dotted(ip).len() > 0,
{
    reveal_strlit(".");
    let (a, b, c, d) = (
        dec(ip.a as nat),
        dec(ip.b as nat),
        dec(ip.c as nat),
        dec(ip.d as nat),
    );
    lemma_dec_no_space(ip.a as nat);
    lemma_dec_no_space(ip.b as nat);
    lemma_dec_no_space(ip.c as nat);
    lemma_dec_no_space(ip.d as nat);
    assert(no_space("."@));
    lemma_no_space_concat(a, "."@);
    lemma_no_space_concat(a + "."@, b);
    lemma_no_space_concat(a + "."@ + b, "."@);
    lemma_no_space_concat(a + "."@ + b + "."@, c);
    lemma_no_space_concat(a + "."@ + b + "."@ + c, "."@);
    lemma_no_space_concat(a + "."@ + b + "."@ + c + "."@, d);
}

/// The words that may end a label.
spec fn is_suffix(s: Seq<char>) -> bool {
    s == Seq::<char>::empty() || s == " (offline)"@ || s == " (you)"@
}

proof fn lemma_label(h1: Seq<char>, p: Ipv4, s1: Seq<char>, h2: Seq<char>, q: Ipv4, s2: Seq<char>)
    requires
        is_suffix(s1),
        is_suffix(s2),
        h1 + "  "@ + dotted(p) + s1 == h2 + "  "@ + dotted(q) + s2,
    ensures
        s1 == s2,
        p == q,
{
    reveal_strlit("  ");
    reveal_strlit(" (offline)");
    reveal_strlit(" (you)");
    lemma_dotted_no_space(p);
    lemma_dotted_no_space(q);
    let d1 = dotted(p);
    let d2 = dotted(q);
    let x1 = h1 + "  "@ + d1;
    let x2 = h2 + "  "@ + d2;
    let all = x1 + s1;
    let n = all.len() - 1;
    assert(all == x2 + s2);
    assert(s1.len() > 0 ==> all[n] == s1.last());
    assert(s1.len() == 0 ==> all[n] == d1[d1.len() - 1]);
    assert(s2.len() > 0 ==> all[n] == s2.last());
    assert(s2.len() == 0 ==> all[n] == d2[d2.len() - 1]);
    assert(s1.len() > 0 ==> all[n - 1] == s1[s1.len() - 2]);
    assert(s2.len() > 0 ==> all[n - 1] == s2[s2.len() - 2]);
    assert(" (offline)"@[8] == 'e');
    assert(" (you)"@[4] == 'u');
    assert(s1 == s2);
    assert(all.take(x1.len() as int) == x1);
    assert(all.take(x2.len() as int) == x2);
    assert(x1 == x2);
    let k1 = x1.len() - d1.len() - 1;
    let k2 = x2.len() - d2.len() - 1;
    assert(x1[k1] == ' ');
    assert(x2[k2] == ' ');
    if d1.len() < d2.len() {
        assert(x2[k1] == d2[k1 - k2 - 1]);
    } else if d2.len() < d1.len() {
        assert(x1[k2] == d1[k2 - k1 - 1]);
    }
    assert(x1.skip(k1 + 1) == d1);
    assert(x2.skip(k2 + 1) == d2);
    law_dotted_names_address(p, q);
}

/// A label names the machine it is for: peers with the same label have the same
/// address and the same connection state, and no peer has the label of this
/// machine itself.
pub proof fn law_label_names_machine(net: NetworkView, p: PeerView, q: PeerView)
    ensures
        peer_row(p).label == peer_row(q).label ==> p.ip == q.ip && p.connected == q.connected,
        peer_row(p).label != self_row(net).label,
{
    reveal_strlit(" (offline)");
    reveal_strlit(" (you)");
    if peer_row(p).label == peer_row(q).label {
        lemma_label(
            host_text(p.hostname, p.ip),
            p.ip,
            peer_suffix(p.connected),
            host_text(q.hostname, q.ip),
            q.ip,
            peer_suffix(q.connected),
        );
        if p.connected != q.connected {
            assert(" (offline)"@.len() == 10);
        }
    }
    if peer_row(p).label == self_row(net).label {
        lemma_label(
            host_text(p.hostname, p.ip),
            p.ip,
            peer_suffix(p.connected),
            host_text(net.my_hostname, net.my_ip),
            net.my_ip,
            " (you)"@,
        );
        assert(peer_suffix(p.connected).len() != " (you)"@.len());
    }
}

proof fn lemma_row_order()
    ensures
        total_preorder(row_order()),
{
    let le = row_order();
    assert forall|a: RowView, b: RowView| #[trigger] le(a, b) || le(b, a) by {
        lemma_text_le_total(a.label, b.label);
    }
    assert forall|a: RowView, b: RowView, c: RowView| #[trigger]
        le(a, b) && #[trigger] le(b, c) implies le(a, c) by {
        if a.online == b.online && b.online == c.online {
            lemma_text_le_transitive(a.label, b.label, c.label);
        }
    }
}

proof fn lemma_member_rows_distinguished(net: NetworkView, rows: Seq<RowView>)
    requires
        forall|i: int| 0 <= i < rows.len() ==> member_rows(net).contains(#[trigger] rows[i]),
    ensures
        antisymmetric_on(rows, row_order()),
{
    let le = row_order();
    let all = member_rows(net);
    assert forall|i: int, j: int|
        0 <= i < rows.len() && 0 <= j < rows.len() && le(rows[i], rows[j]) && le(
            rows[j],
            rows[i],
        ) implies #[trigger] rows[i] == #[trigger] rows[j] by {
        lemma_text_le_total(rows[i].label, rows[j].label);
        assert(all.contains(rows[i]));
        assert(all.contains(rows[j]));
        let x = choose|x: int| 0 <= x < all.len() && all[x] == rows[i];
        let y = choose|y: int| 0 <= y < all.len() && all[y] == rows[j];
        if x > 0 {
            let p = net.peers[x - 1];
            assert(all[x] == peer_row(p));
            law_label_names_machine(net, p, p);
            if y > 0 {
                let q = net.peers[y - 1];
                assert(all[y] == peer_row(q));
                law_label_names_machine(net, p, q);
            }
        } else if y > 0 {
            let q = net.peers[y - 1];
            assert(all[y] == peer_row(q));
            law_label_names_machine(net, q, q);
        }
    }
}

/// The rows of a network are this machine and every peer, each once, online
/// first and then alphabetical by label.
pub proof fn law_rows_are_members_in_order(net: NetworkView)
    ensures
        desired_rows(net).to_multiset() == member_rows(net).to_multiset(),
        desired_rows(net).len() == net.peers.len() + 1,
        in_order(desired_rows(net), row_order()),
{
    lemma_row_order();
    lemma_sorted(member_rows(net), row_order());
}

proof fn lemma_rows_unique(net: NetworkView, rows: Seq<RowView>)
    requires
        rows.to_multiset() == member_rows(net).to_multiset(),
        in_order(rows, row_order()),
    ensures
        rows == desired_rows(net),
{
    broadcast use vstd::seq_lib::group_to_multiset_ensures;

    law_rows_are_members_in_order(net);
    assert forall|i: int| 0 <= i < rows.len() implies member_rows(net).contains(
        #[trigger] rows[i],
    ) by {
        assert(rows.contains(rows[i]));
        assert(member_rows(net).to_multiset().contains(rows[i]));
    }
    lemma_member_rows_distinguished(net, rows);
    lemma_in_order_unique(rows, desired_rows(net), row_order());
}

/// The order in which the daemon lists the peers does not matter.
pub proof fn law_rows_ignore_peer_order(a: NetworkView, b: NetworkView)
    requires
        a.my_hostname == b.my_hostname,
        a.my_ip == b.my_ip,
        a.peers.to_multiset() == b.peers.to_multiset(),
    ensures
        desired_rows(a) == desired_rows(b),
{
    law_rows_are_members_in_order(b);
    lemma_rows_of_peers(a, b);
    lemma_rows_unique(a, desired_rows(b));
}

proof fn lemma_rows_of_peers(a: NetworkView, b: NetworkView)
    requires
        a.my_hostname == b.my_hostname,
        a.my_ip == b.my_ip,
        a.peers.to_multiset() == b.peers.to_multiset(),
    ensures
        member_rows(a).to_multiset() == member_rows(b).to_multiset(),
{
    let f = |p: PeerView| peer_row(p);
    lemma_map_multiset(a.peers, b.peers, f);
    let me = seq![self_row(a)];
    vstd::seq_lib::lemma_multiset_commutative(me, a.peers.map_values(f));
    vstd::seq_lib::lemma_multiset_commutative(me, b.peers.map_values(f));
}

proof fn lemma_map_multiset(a: Seq<PeerView>, b: Seq<PeerView>, f: spec_fn(PeerView) -> RowView)
    requires
        a.to_multiset() == b.to_multiset(),
    ensures
        a.map_values(f).to_multiset() == b.map_values(f).to_multiset(),
    decreases a.len(),
{
    broadcast use vstd::seq_lib::group_to_multiset_ensures;

    assert(a.len() == b.len()) by {
        assert(a.to_multiset().len() == a.len());
        assert(b.to_multiset().len() == b.len());
    }
    if a.len() > 0 {
        let x = a.last();
        assert(a.contains(a[a.len() - 1]));
        assert(b.to_multiset().contains(x));
        let j = choose|j: int| 0 <= j < b.len() && b[j] == x;
        let u = a.drop_last();
        let v = b.remove(j);
        assert(u.push(x) == a);
        assert(u.to_multiset() =~= a.to_multiset().remove(x));
        assert(v.to_multiset() =~= b.to_multiset().remove(x));
        lemma_map_multiset(u, v, f);
        assert(a.map_values(f) == u.map_values(f).push(f(x)));
        assert(b.map_values(f).remove(j) == v.map_values(f));
        assert(b.map_values(f)[j] == f(x));
        assert(b.map_values(f).contains(f(x)));
        assert(b.map_values(f).to_multiset() =~= v.map_values(f).to_multiset().insert(f(x)));
    } else {
        assert(a.map_values(f) == b.map_values(f));
    }
}

/// The dotted form of an address is its four octets in decimal, with a dot
/// between each two.
pub proof fn law_dotted_form(ip: Ipv4)
    ensures
        dotted(ip) == joined(
            seq![dec(ip.a as nat), dec(ip.b as nat), dec(ip.c as nat), dec(ip.d as nat)],
            "."@,
        ),
{
    let a = dec(ip.a as nat);
    let b = dec(ip.b as nat);
    let c = dec(ip.c as nat);
    let d = dec(ip.d as nat);
    let all = seq![a, b, c, d];
    reveal_with_fuel(joined, 4);
    assert(all.drop_last() =~= seq![a, b, c]);
    assert(seq![a, b, c].drop_last() =~= seq![a, b]);
    assert(seq![a, b].drop_last() =~= seq![a]);
    assert(dotted(ip) =~= joined(all, "."@));
}

/// The row of a peer goes by its host name, or by its address where it has
/// none; it shows and copies the peer's address, and says so where there is no
/// connection.
pub proof fn law_row_of_peer(p: PeerView)
    ensures
        peer_row(p).ip == p.ip,
        peer_row(p).online == p.connected,
        p.hostname is None && p.connected ==> peer_row(p).label == dotted(p.ip) + "  "@ + dotted(
            p.ip,
        ),
        p.hostname is None && !p.connected ==> peer_row(p).label == dotted(p.ip) + "  "@ + dotted(
            p.ip,
        ) + " (offline)"@,
        p.hostname is Some && p.connected ==> peer_row(p).label == p.hostname->Some_0 + "  "@
            + dotted(p.ip),
        p.hostname is Some && !p.connected ==> peer_row(p).label == p.hostname->Some_0 + "  "@
            + dotted(p.ip) + " (offline)"@,
{
    if p.connected {
        assert(peer_row(p).label =~= host_text(p.hostname, p.ip) + "  "@ + dotted(p.ip));
    }
}

/// The row of this machine goes by its host name, or by its address where it
/// has none; it is always online, and marked as one's own.
pub proof fn law_row_of_this_machine(net: NetworkView)
    ensures
        self_row(net).ip == net.my_ip,
        self_row(net).online,
        net.my_hostname is None ==> self_row(net).label == dotted(net.my_ip) + "  "@ + dotted(
            net.my_ip,
        ) + " (you)"@,
        net.my_hostname is Some ==> self_row(net).label == net.my_hostname->Some_0 + "  "@
            + dotted(net.my_ip) + " (you)"@,
{
}

/// There is one row for this machine and one for each peer, and no other.
pub proof fn law_every_member_has_one_row(net: NetworkView)
    ensures
        desired_rows(net).len() == net.peers.len() + 1,
        desired_rows(net).to_multiset() == (seq![self_row(net)] + Seq::new(
            net.peers.len(),
            |i: int| peer_row(net.peers[i]),
        )).to_multiset(),
        desired_rows(net).contains(self_row(net)),
        forall|i: int|
            0 <= i < net.peers.len() ==> desired_rows(net).contains(
                peer_row(#[trigger] net.peers[i]),
            ),
{
    broadcast use vstd::seq_lib::group_to_multiset_ensures;

    law_rows_are_members_in_order(net);
    let all = seq![self_row(net)] + Seq::new(
        net.peers.len(),
        |i: int| peer_row(net.peers[i]),
    );
    assert(member_rows(net) =~= all);
    assert(all[0] == self_row(net));
    assert(all.contains(self_row(net)));
    assert(desired_rows(net).to_multiset().contains(self_row(net)));
    assert forall|i: int| 0 <= i < net.peers.len() implies desired_rows(net).contains(
        peer_row(#[trigger] net.peers[i]),
    ) by {
        assert(all[i + 1] == peer_row(net.peers[i]));
        assert(all.contains(peer_row(net.peers[i])));
        assert(desired_rows(net).to_multiset().contains(peer_row(net.peers[i])));
    }
}

/// No offline machine stands above an online one, and machines in the same state
/// stand in the order of their labels.
pub proof fn law_online_rows_come_first(net: NetworkView, i: int, j: int)
    requires
        0 <= i < j < desired_rows(net).len(),
    ensures
        desired_rows(net)[j].online ==> desired_rows(net)[i].online,
        desired_rows(net)[i].online == desired_rows(net)[j].online ==> text_le(
            desired_rows(net)[i].label,
            desired_rows(net)[j].label,
        ),
{
    law_rows_are_members_in_order(net);
    let r = desired_rows(net);
    assert(row_order()(r[i], r[j]));
}

/// The models of a status hold what the status holds.
pub proof fn law_status_models(net: NetworkStatus, p: PeerStatus, row: Row)
    ensures
        net@.network == net.network@,
        net@.my_hostname is Some == net.my_hostname is Some,
        net.my_hostname matches Some(h) ==> net@.my_hostname == Some(h@),
        net@.my_ip == net.my_ip,
        net@.member_count == net.member_count,
        net@.active == net.active,
        net@.peers.len() == net.peers.len(),
        forall|i: int| 0 <= i < net.peers.len() ==> #[trigger] net@.peers[i] == net.peers@[i]@,
        p@.hostname is Some == p.hostname is Some,
        p.hostname matches Some(h) ==> p@.hostname == Some(h@),
        p@.ip == p.ip,
        p@.connected == p.connected,
        row@.label == row.label@,
        row@.ip == row.ip,
        row@.online == row.online,
{
}

/// The models of a list are those of its elements, in their order.
pub proof fn law_list_models(nets: Seq<NetworkStatus>, rows: Seq<Row>)
    ensures
        network_views(nets).len() == nets.len(),
        forall|i: int| 0 <= i < nets.len() ==> #[trigger] network_views(nets)[i] == nets[i]@,
        row_views(rows).len() == rows.len(),
        forall|i: int| 0 <= i < rows.len() ==> #[trigger] row_views(rows)[i] == rows[i]@,
{
}

} // verus!
