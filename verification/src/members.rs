//! What the daemon reports of a network, and the member rows that a menu
//! shows for it.
use crate::order::{inserted, is_text_le, lemma_inserted_at, sorted, text_le};
use crate::text::{dec, push_dec};
use vstd::prelude::*;

verus! {

// ---------------------------------------------------------------------------
// Addresses
// ---------------------------------------------------------------------------

/// An IPv4 address, by its four octets.
#[derive(Clone, Copy, Debug, PartialEq, Eq, Structural)]
pub struct Ipv4 {
    pub a: u8,
    pub b: u8,
    pub c: u8,
    pub d: u8,
}

/// The dotted decimal form of an address.
pub open spec fn dotted(ip: Ipv4) -> Seq<char> {
    dec(ip.a as nat) + "."@ + dec(ip.b as nat) + "."@ + dec(ip.c as nat) + "."@ + dec(ip.d as nat)
}

/// Appends the dotted decimal form of an address.
pub fn push_ip(out: &mut String, ip: Ipv4)
    ensures
        final(out)@ == old(out)@ + dotted(ip),
{
    push_dec(out, ip.a as u64);
    out.append(".");
    push_dec(out, ip.b as u64);
    out.append(".");
    push_dec(out, ip.c as u64);
    out.append(".");
    push_dec(out, ip.d as u64);
    assert(out@ == old(out)@ + dotted(ip));
}

// ---------------------------------------------------------------------------
// Daemon status
// ---------------------------------------------------------------------------

/// Another machine in a network.
#[derive(Debug, PartialEq, Eq)]
pub struct PeerStatus {
    pub hostname: Option<String>,
    pub ip: Ipv4,
    /// A connection to this machine is up.
    pub connected: bool,
}

/// One network that this machine is a member of.
#[derive(Debug, PartialEq, Eq)]
pub struct NetworkStatus {
    /// Local display name.
    pub network: String,
    pub my_hostname: Option<String>,
    pub my_ip: Ipv4,
    pub peers: Vec<PeerStatus>,
    pub member_count: u64,
    /// Not on standby.
    pub active: bool,
}

/// Mathematical model of a [`PeerStatus`].
pub struct PeerView {
    pub hostname: Option<Seq<char>>,
    pub ip: Ipv4,
    pub connected: bool,
}

/// Mathematical model of a [`NetworkStatus`].
pub struct NetworkView {
    pub network: Seq<char>,
    pub my_hostname: Option<Seq<char>>,
    pub my_ip: Ipv4,
    pub peers: Seq<PeerView>,
    pub member_count: nat,
    pub active: bool,
}

/// The text of an optional string.
pub open spec fn text_of(s: Option<String>) -> Option<Seq<char>> {
    match s {
        Some(t) => Some(t@),
        None => None,
    }
}

impl View for PeerStatus {
    type V = PeerView;

    open spec fn view(&self) -> PeerView {
        PeerView { hostname: text_of(self.hostname), ip: self.ip, connected: self.connected }
    }
}

impl View for NetworkStatus {
    type V = NetworkView;

    open spec fn view(&self) -> NetworkView {
        NetworkView {
            network: self.network@,
            my_hostname: text_of(self.my_hostname),
            my_ip: self.my_ip,
            peers: self.peers@.map_values(|p: PeerStatus| p@),
            member_count: self.member_count as nat,
            active: self.active,
        }
    }
}

/// The models of a list of networks.
pub open spec fn network_views(v: Seq<NetworkStatus>) -> Seq<NetworkView> {
    v.map_values(|n: NetworkStatus| n@)
}

// ---------------------------------------------------------------------------
// Member rows
// ---------------------------------------------------------------------------

/// One member row: its display text, and the address that a click copies.
#[derive(Debug, PartialEq, Eq)]
pub struct Row {
    pub label: String,
    pub ip: Ipv4,
    pub online: bool,
}

/// Mathematical model of a [`Row`].
pub struct RowView {
    pub label: Seq<char>,
    pub ip: Ipv4,
    pub online: bool,
}

impl View for Row {
    type V = RowView;

    open spec fn view(&self) -> RowView {
        RowView { label: self.label@, ip: self.ip, online: self.online }
    }
}

/// The models of a list of rows.
pub open spec fn row_views(v: Seq<Row>) -> Seq<RowView> {
    v.map_values(|r: Row| r@)
}

/// The host name, or the address where there is none.
pub open spec fn host_text(hostname: Option<Seq<char>>, ip: Ipv4) -> Seq<char> {
    match hostname {
        Some(h) => h,
        None => dotted(ip),
    }
}

/// The row of this machine itself.
pub open spec fn self_row(net: NetworkView) -> RowView {
    RowView {
        label: host_text(net.my_hostname, net.my_ip) + "  "@ + dotted(net.my_ip) + " (you)"@,
        ip: net.my_ip,
        online: true,
    }
}

/// What the label of a peer says of its connection.
pub open spec fn peer_suffix(connected: bool) -> Seq<char> {
    if connected {
        Seq::empty()
    } else {
        " (offline)"@
    }
}

/// The row of another machine.
pub open spec fn peer_row(p: PeerView) -> RowView {
    RowView {
        label: host_text(p.hostname, p.ip) + "  "@ + dotted(p.ip) + peer_suffix(p.connected),
        ip: p.ip,
        online: p.connected,
    }
}

/// One row for this machine and one for each peer, in the daemon's order.
pub open spec fn member_rows(net: NetworkView) -> Seq<RowView> {
    seq![self_row(net)] + net.peers.map_values(|p: PeerView| peer_row(p))
}

/// The order of the rows: online first, then by label.
pub open spec fn row_le(a: RowView, b: RowView) -> bool {
    if a.online != b.online {
        a.online
    } else {
        text_le(a.label, b.label)
    }
}

/// [`row_le`] as a relation.
pub open spec fn row_order() -> spec_fn(RowView, RowView) -> bool {
    |a: RowView, b: RowView| row_le(a, b)
}

/// The rows of a network in the order in which a menu lists them.
pub open spec fn desired_rows(net: NetworkView) -> Seq<RowView> {
    sorted(member_rows(net), row_order())
}

fn host_or_ip(hostname: &Option<String>, ip: Ipv4) -> (r: String)
    ensures
        r@ == host_text(text_of(*hostname), ip),
{
    match hostname {
        Some(h) => h.clone(),
        None => {
            let mut out: String = String::new();
            push_ip(&mut out, ip);
            assert(out@ == dotted(ip));
            out
        },
    }
}

fn is_row_le(a: &Row, b: &Row) -> (r: bool)
    ensures
        r == row_le(a@, b@),
{
    if a.online != b.online {
        a.online
    } else {
        is_text_le(a.label.as_str(), b.label.as_str())
    }
}

fn insert_row(rows: &mut Vec<Row>, row: Row)
    ensures
        row_views(final(rows)@) == inserted(row_views(old(rows)@), row@, row_order()),
{
    let mut k: usize = rows.len();
    while k > 0 && !is_row_le(&rows[k - 1], &row)
        invariant
            rows@ == old(rows)@,
            k <= rows.len(),
            forall|i: int| k <= i < rows.len() ==> !row_le(#[trigger] rows@[i]@, row@),
        decreases k,
    {
        k = k - 1;
    }
    proof {
        let s = row_views(rows@);
        assert forall|i: int| k <= i < s.len() implies !row_order()(#[trigger] s[i], row@) by {
            assert(!row_le(rows@[i]@, row@));
        }
        lemma_inserted_at(s, row@, row_order(), k as int);
    }
    let ghost before = rows@;
    let ghost x = row;
    rows.insert(k, row);
    assert(row_views(rows@) == row_views(before).insert(k as int, x@));
}

/// The rows of a network in the order in which a menu lists them: this machine
/// and every peer, online first, then alphabetical by label.
pub fn compute_desired_rows(net: &NetworkStatus) -> (rows: Vec<Row>)
    ensures
        row_views(rows@) == desired_rows(net@),
{
    let mut label: String = host_or_ip(&net.my_hostname, net.my_ip);
    label.append("  ");
    push_ip(&mut label, net.my_ip);
    label.append(" (you)");
    let me: Row = Row { label, ip: net.my_ip, online: true };
    assert(me@ == self_row(net@));
    let mut rows: Vec<Row> = Vec::new();
    let ghost all = member_rows(net@);
    proof {
        assert(row_views(rows@) == Seq::<RowView>::empty());
        reveal_with_fuel(sorted, 2);
        assert(all.take(1).drop_last() == Seq::<RowView>::empty());
    }
    insert_row(&mut rows, me);
    for i in 0..net.peers.len()
        invariant
            all == member_rows(net@),
            row_views(rows@) == sorted(all.take(i + 1), row_order()),
    {
        let p: &PeerStatus = &net.peers[i];
        let mut label: String = host_or_ip(&p.hostname, p.ip);
        label.append("  ");
        push_ip(&mut label, p.ip);
        if !p.connected {
            label.append(" (offline)");
        }
        let row: Row = Row { label, ip: p.ip, online: p.connected };
        proof {
            assert(row@ == peer_row(p@));
            assert(net@.peers[i as int] == p@);
            assert(all[i + 1] == row@);
            assert(all.take(i + 2).drop_last() == all.take(i + 1));
        }
        insert_row(&mut rows, row);
    }
    assert(all.take(all.len() as int) == all);
    rows
}

} // verus!
