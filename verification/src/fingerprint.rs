//! The fingerprint that tells when the menu has to be built anew.
use crate::members::{network_views, NetworkStatus, NetworkView};
use crate::order::{
    antisymmetric_on, inserted, is_text_le, lemma_in_order_unique, lemma_inserted_at, lemma_sorted,
    lemma_text_order, sorted, text_le, text_order,
};
use crate::text::{chars_of, join, joined, views};
use vstd::prelude::*;

verus! {

/// `true` or `false`.
pub open spec fn bool_text(b: bool) -> Seq<char> {
    if b {
        "true"@
    } else {
        "false"@
    }
}

/// The display names of a list of networks.
pub open spec fn names(networks: Seq<NetworkView>) -> Seq<Seq<char>> {
    networks.map_values(|n: NetworkView| n.network)
}

/// A name that stands in a fingerprint as it is: commas separate names there,
/// so a name with a comma, or an empty one, has to be written otherwise.
pub open spec fn is_plain(name: Seq<char>) -> bool {
    name.len() > 0 && !name.contains(',')
}

/// One character of a name that is not plain, as a fingerprint writes it.
pub open spec fn escaped_char(c: char) -> Seq<char> {
    if c == ',' {
        "\\c"@
    } else if c == '\\' {
        "\\\\"@
    } else {
        seq![c]
    }
}

/// The characters of a name that is not plain, as a fingerprint writes them.
pub open spec fn escaped(name: Seq<char>) -> Seq<char>
    decreases name.len(),
{
    if name.len() == 0 {
        Seq::empty()
    } else {
        escaped(name.drop_last()) + escaped_char(name.last())
    }
}

/// A name that is not plain, as a fingerprint writes it: an empty one has a mark
/// of its own.
pub open spec fn encoded(name: Seq<char>) -> Seq<char> {
    if name.len() == 0 {
        "\\e"@
    } else {
        escaped(name)
    }
}

/// What a fingerprint writes for a name: a plain one as it is, another one
/// behind an empty piece.
pub open spec fn pieces(name: Seq<char>) -> Seq<Seq<char>> {
    if is_plain(name) {
        seq![name]
    } else {
        seq![Seq::empty(), encoded(name)]
    }
}

/// What a fingerprint writes for a list of names.
pub open spec fn all_pieces(names: Seq<Seq<char>>) -> Seq<Seq<char>>
    decreases names.len(),
{
    if names.len() == 0 {
        Seq::empty()
    } else {
        all_pieces(names.drop_last()) + pieces(names.last())
    }
}

/// The reachability and the sorted names.
pub open spec fn fingerprint(reachable: bool, names: Seq<Seq<char>>) -> Seq<char> {
    bool_text(reachable) + "|"@ + joined(all_pieces(sorted(names, text_order())), ","@)
}

fn plain(name: &str) -> (r: bool)
    ensures
        r == is_plain(name@),
{
    let chars: Vec<char> = chars_of(name);
    for i in 0..chars.len()
        invariant
            chars@ == name@,
            forall|j: int| 0 <= j < i ==> chars@[j] != ',',
    {
        if chars[i] == ',' {
            assert(name@[i as int] == ',');
            return false;
        }
    }
    chars.len() > 0
}

fn encode(name: &str) -> (r: String)
    ensures
        r@ == encoded(name@),
{
    let len: usize = name.unicode_len();
    if len == 0 {
        return "\\e".to_owned();
    }
    let mut out: String = String::new();
    assert(name@.take(0) == Seq::<char>::empty());
    for i in 0..len
        invariant
            len == name@.len(),
            out@ == escaped(name@.take(i as int)),
    {
        let c: char = name.get_char(i);
        if c == ',' {
            out.append("\\c");
        } else if c == '\\' {
            out.append("\\\\");
        } else {
            out.append(name.substring_char(i, i + 1));
            assert(name@.subrange(i as int, i + 1) == seq![c]);
        }
        assert(name@.take(i + 1).drop_last() == name@.take(i as int));
    }
    assert(name@.take(len as int) == name@);
    out
}

fn insert_name(sorted_names: &mut Vec<String>, name: String)
    ensures
        views(final(sorted_names)@) == inserted(views(old(sorted_names)@), name@, text_order()),
{
    let mut k: usize = sorted_names.len();
    while k > 0 && !is_text_le(sorted_names[k - 1].as_str(), name.as_str())
        invariant
            sorted_names@ == old(sorted_names)@,
            k <= sorted_names.len(),
            forall|i: int|
                k <= i < sorted_names.len() ==> !text_le((#[trigger] sorted_names@[i])@, name@),
        decreases k,
    {
        k = k - 1;
    }
    let ghost before = sorted_names@;
    let ghost text = name@;
    proof {
        let s = views(before);
        assert forall|i: int| k <= i < s.len() implies !text_order()(#[trigger] s[i], text) by {
            assert(!text_le(before[i]@, text));
        }
        lemma_inserted_at(s, text, text_order(), k as int);
    }
    sorted_names.insert(k, name);
    assert(views(sorted_names@) == views(before).insert(k as int, text));
}

fn write_all(list: &Vec<String>) -> (r: Vec<String>)
    ensures
        views(r@) == all_pieces(views(list@)),
{
    let mut out: Vec<String> = Vec::new();
    let ghost all = views(list@);
    assert(views(out@) == Seq::<Seq<char>>::empty());
    for i in 0..list.len()
        invariant
            all == views(list@),
            views(out@) == all_pieces(all.take(i as int)),
    {
        let name: &str = list[i].as_str();
        let ghost before = views(out@);
        if plain(name) {
            let text: String = name.to_owned();
            out.push(text);
        } else {
            out.push(String::new());
            out.push(encode(name));
        }
        proof {
            assert(all.take(i + 1).drop_last() == all.take(i as int));
            assert(all.take(i + 1).last() == name@);
            assert(views(out@) =~= before + pieces(name@));
        }
    }
    assert(all.take(all.len() as int) == all);
    out
}

/// The fingerprint of what the menu is built for: whether the daemon can be
/// reached, and which networks there are. It leaves out all that changes
/// within a network.
pub fn structural_fingerprint(reachable: bool, networks: &Vec<NetworkStatus>) -> (r: String)
    ensures
        r@ == fingerprint(reachable, names(network_views(networks@))),
{
    let mut list: Vec<String> = Vec::new();
    let ghost all = names(network_views(networks@));
    assert(views(list@) == Seq::<Seq<char>>::empty());
    assert(all.take(0) == Seq::<Seq<char>>::empty());
    for i in 0..networks.len()
        invariant
            all == names(network_views(networks@)),
            views(list@) == sorted(all.take(i as int), text_order()),
    {
        proof {
            assert(all[i as int] == networks@[i as int].network@);
            assert(all.take(i + 1).drop_last() == all.take(i as int));
        }
        insert_name(&mut list, networks[i].network.clone());
    }
    assert(all.take(all.len() as int) == all);
    let mut out: String = if reachable {
        "true".to_owned()
    } else {
        "false".to_owned()
    };
    out.append("|");
    out.append(join(&write_all(&list), ",").as_str());
    out
}

/// No text holds a comma.
spec fn comma_free(names: Seq<Seq<char>>) -> bool {
    forall|i: int, j: int|
        0 <= i < names.len() && 0 <= j < names[i].len() ==> #[trigger] names[i][j] != ','
}

proof fn lemma_comma_free_front(names: Seq<Seq<char>>)
    requires
        comma_free(names),
        names.len() > 0,
    ensures
        comma_free(names.drop_last()),
{
    let front = names.drop_last();
    assert forall|i: int, j: int|
        0 <= i < front.len() && 0 <= j < front[i].len() implies #[trigger] front[i][j] != ',' by {
        assert(names[i][j] != ',');
    }
}

proof fn lemma_joined_injective(a: Seq<Seq<char>>, b: Seq<Seq<char>>)
    requires
        comma_free(a),
        comma_free(b),
        a.len() > 0,
        b.len() > 0,
        joined(a, ","@) == joined(b, ","@),
    ensures
        a == b,
    decreases a.len(),
{
    reveal_strlit(",");
    let x = joined(a.drop_last(), ","@);
    let y = joined(b.drop_last(), ","@);
    let all = joined(a, ","@);
    if a.len() == 1 && b.len() == 1 {
        assert(a == b);
    } else if a.len() == 1 {
        assert(all[y.len() as int] == ',');
        assert(a[0][y.len() as int] == ',');
    } else if b.len() == 1 {
        assert(all[x.len() as int] == ',');
        assert(b[0][x.len() as int] == ',');
    } else {
        let l = a.last();
        let m = b.last();
        let n = a.len() - 1;
        let k = b.len() - 1;
        assert(all == x + ","@ + l);
        assert(all == y + ","@ + m);
        assert(all[x.len() as int] == ',');
        assert(all[y.len() as int] == ',');
        if l.len() < m.len() {
            assert((y + ","@ + m)[x.len() as int] == m[x.len() - y.len() - 1]);
            assert(all[x.len() as int] == b[k][x.len() - y.len() - 1]);
        } else if m.len() < l.len() {
            assert((x + ","@ + l)[y.len() as int] == l[y.len() - x.len() - 1]);
            assert(all[y.len() as int] == a[n][y.len() - x.len() - 1]);
        }
        assert(all.take(x.len() as int) == x);
        assert(all.take(y.len() as int) == y);
        assert(all.skip(x.len() as int + 1) == l);
        assert(all.skip(y.len() as int + 1) == m);
        lemma_comma_free_front(a);
        lemma_comma_free_front(b);
        lemma_joined_injective(a.drop_last(), b.drop_last());
        assert(a == a.drop_last().push(l));
        assert(b == b.drop_last().push(m));
    }
}

proof fn lemma_escaped_char(c: char)
    ensures
        escaped_char(c).len() > 0,
        c != ',' && c != '\\' ==> escaped_char(c) == seq![c],
        c == ',' ==> escaped_char(c) == seq!['\\', 'c'],
        c == '\\' ==> escaped_char(c) == seq!['\\', '\\'],
{
    reveal_strlit("\\c");
    reveal_strlit("\\\\");
    assert("\\c"@ =~= seq!['\\', 'c']);
    assert("\\\\"@ =~= seq!['\\', '\\']);
}

/// A name is escaped from its front as well as from its back.
proof fn lemma_escaped_front(name: Seq<char>)
    requires
        name.len() > 0,
    ensures
        escaped(name) == escaped_char(name[0]) + escaped(name.skip(1)),
    decreases name.len(),
{
    if name.len() == 1 {
        assert(name.drop_last() == Seq::<char>::empty());
        assert(name.skip(1) == Seq::<char>::empty());
        assert(escaped(name.drop_last()) == Seq::<char>::empty());
        assert(escaped(name) =~= escaped_char(name[0]) + escaped(name.skip(1)));
    } else {
        lemma_escaped_front(name.drop_last());
        assert(name.drop_last().skip(1) == name.skip(1).drop_last());
        assert(escaped(name) =~= escaped_char(name[0]) + escaped(name.skip(1)));
    }
}

proof fn lemma_escaped_injective(a: Seq<char>, b: Seq<char>)
    requires
        escaped(a) == escaped(b),
    ensures
        a == b,
    decreases a.len(),
{
    if a.len() > 0 {
        lemma_escaped_front(a);
        lemma_escaped_char(a[0]);
    }
    if b.len() > 0 {
        lemma_escaped_front(b);
        lemma_escaped_char(b[0]);
    }
    if a.len() > 0 && b.len() > 0 {
        let all = escaped(a);
        let x = escaped_char(a[0]);
        let y = escaped_char(b[0]);
        assert(all[0] == x[0] && all[0] == y[0]);
        if x.len() > 1 {
            assert(all[1] == x[1]);
        }
        if y.len() > 1 {
            assert(all[1] == y[1]);
        }
        assert(a[0] == b[0]);
        assert(all.skip(x.len() as int) == escaped(a.skip(1)));
        assert(all.skip(x.len() as int) == escaped(b.skip(1)));
        lemma_escaped_injective(a.skip(1), b.skip(1));
        assert(a == seq![a[0]] + a.skip(1));
        assert(b == seq![b[0]] + b.skip(1));
    } else {
        if a.len() > 0 {
            assert(escaped(a)[0] == escaped_char(a[0])[0]);
            assert(escaped(b).len() == 0);
        }
        if b.len() > 0 {
            assert(escaped(b)[0] == escaped_char(b[0])[0]);
            assert(escaped(a).len() == 0);
        }
        assert(a == b);
    }
}

proof fn lemma_escaped_comma_free(name: Seq<char>)
    ensures
        !escaped(name).contains(','),
    decreases name.len(),
{
    if name.len() > 0 {
        lemma_escaped_comma_free(name.drop_last());
        lemma_escaped_char(name.last());
        let s = escaped(name.drop_last());
        let t = escaped_char(name.last());
        if (s + t).contains(',') {
            let i = choose|i: int| 0 <= i < (s + t).len() && (s + t)[i] == ',';
            if i < s.len() {
                assert(s[i] == ',');
            } else {
                assert(t[i - s.len()] == ',');
            }
        }
    }
}

/// A name as a fingerprint writes it is neither empty nor split by a comma, and
/// belongs to that name only.
proof fn lemma_encoded(a: Seq<char>, b: Seq<char>)
    ensures
        encoded(a).len() > 0,
        !encoded(a).contains(','),
        encoded(a) == encoded(b) ==> a == b,
{
    reveal_strlit("\\e");
    lemma_escaped_comma_free(a);
    lemma_mark(a);
    lemma_mark(b);
    if encoded(a) == encoded(b) {
        if a.len() > 0 && b.len() > 0 {
            lemma_escaped_injective(a, b);
        } else {
            assert(a == b);
        }
    }
}

/// No escaped name is the mark of an empty one.
proof fn lemma_mark(name: Seq<char>)
    ensures
        name.len() > 0 ==> escaped(name).len() > 0 && escaped(name) != "\\e"@,
{
    if name.len() > 0 {
        let c = escaped_char(name[0]);
        let rest = escaped(name.skip(1));
        lemma_escaped_front(name);
        lemma_escaped_char(name[0]);
        lemma_not_mark(c, rest, name[0]);
    }
}

proof fn lemma_not_mark(c: Seq<char>, rest: Seq<char>, first: char)
    requires
        c == seq![first] && first != '\\' || c == seq!['\\', 'c'] || c == seq!['\\', '\\'],
    ensures
        (c + rest).len() > 0,
        c + rest != "\\e"@,
{
    reveal_strlit("\\e");
    let all = c + rest;
    assert(all[0] == c[0]);
    if c.len() > 1 {
        assert(all[1] == c[1]);
    }
}

/// No piece holds a comma, and the last one is not empty.
proof fn lemma_all_pieces(a: Seq<Seq<char>>)
    ensures
        comma_free(all_pieces(a)),
        a.len() > 0 ==> all_pieces(a).len() > 0 && all_pieces(a).last().len() > 0,
    decreases a.len(),
{
    if a.len() > 0 {
        let name = a.last();
        let front = all_pieces(a.drop_last());
        let own = pieces(name);
        let all = all_pieces(a);
        lemma_all_pieces(a.drop_last());
        lemma_encoded(name, name);
        assert forall|i: int, j: int|
            0 <= i < all.len() && 0 <= j < all[i].len() implies #[trigger] all[i][j] != ',' by {
            if i < front.len() {
                assert(all[i] == front[i]);
                assert(front[i][j] != ',');
            } else {
                let piece = own[i - front.len()];
                assert(all[i] == piece);
                if piece[j] == ',' {
                    assert(piece.contains(','));
                }
            }
        }
    }
}

/// The pieces tell which names they were written for.
proof fn lemma_all_pieces_injective(a: Seq<Seq<char>>, b: Seq<Seq<char>>)
    requires
        all_pieces(a) == all_pieces(b),
    ensures
        a == b,
    decreases a.len(),
{
    lemma_all_pieces(a);
    lemma_all_pieces(b);
    if a.len() > 0 && b.len() > 0 {
        let all = all_pieces(a);
        let x = a.last();
        let y = b.last();
        let fa = all_pieces(a.drop_last());
        let fb = all_pieces(b.drop_last());
        lemma_all_pieces(a.drop_last());
        lemma_all_pieces(b.drop_last());
        lemma_encoded(x, y);
        if is_plain(x) && !is_plain(y) {
            assert(all == fb + pieces(y));
            assert(all[all.len() - 2] == Seq::<char>::empty());
            assert(all[all.len() - 2] == fa.last());
            assert(a.drop_last().len() > 0);
        } else if !is_plain(x) && is_plain(y) {
            assert(all == fa + pieces(x));
            assert(all[all.len() - 2] == Seq::<char>::empty());
            assert(all[all.len() - 2] == fb.last());
            assert(b.drop_last().len() > 0);
        } else if is_plain(x) {
            assert(all.last() == x && all.last() == y);
        } else {
            assert(all.last() == encoded(x) && all.last() == encoded(y));
        }
        assert(x == y);
        assert(fa =~= all.take(fa.len() as int));
        assert(fb =~= all.take(fb.len() as int));
        lemma_all_pieces_injective(a.drop_last(), b.drop_last());
        assert(a == a.drop_last().push(x));
        assert(b == b.drop_last().push(y));
    } else {
        assert(a == b);
    }
}

/// The fingerprint does not depend on the order in which the daemon lists the
/// networks.
pub proof fn law_fingerprint_ignores_order(reachable: bool, a: Seq<Seq<char>>, b: Seq<Seq<char>>)
    requires
        a.to_multiset() == b.to_multiset(),
    ensures
        fingerprint(reachable, a) == fingerprint(reachable, b),
{
    lemma_text_order();
    lemma_sorted(a, text_order());
    lemma_sorted(b, text_order());
    assert(antisymmetric_on(sorted(a, text_order()), text_order()));
    lemma_in_order_unique(sorted(a, text_order()), sorted(b, text_order()), text_order());
}

/// The fingerprint changes exactly when the reachability flips or the networks
/// are not the same, whatever their names are.
pub proof fn law_fingerprint_tells_changes(
    r1: bool,
    a: Seq<Seq<char>>,
    r2: bool,
    b: Seq<Seq<char>>,
)
    ensures
        fingerprint(r1, a) == fingerprint(r2, b) <==> r1 == r2 && a.to_multiset()
            == b.to_multiset(),
{
    let s = sorted(a, text_order());
    let t = sorted(b, text_order());
    lemma_text_order();
    lemma_sorted(a, text_order());
    lemma_sorted(b, text_order());
    if r1 == r2 && a.to_multiset() == b.to_multiset() {
        law_fingerprint_ignores_order(r1, a, b);
    }
    if fingerprint(r1, a) == fingerprint(r2, b) {
        reveal_strlit("true");
        reveal_strlit("false");
        reveal_strlit("|");
        let f = fingerprint(r1, a);
        assert(f[0] == bool_text(r1)[0]);
        assert(f[0] == bool_text(r2)[0]);
        assert(r1 == r2);
        let n = bool_text(r1).len() + 1;
        assert(f.skip(n as int) == joined(all_pieces(s), ","@));
        assert(f.skip(n as int) == joined(all_pieces(t), ","@));
        lemma_all_pieces(s);
        lemma_all_pieces(t);
        if s.len() > 0 && t.len() > 0 {
            lemma_joined_injective(all_pieces(s), all_pieces(t));
            lemma_all_pieces_injective(s, t);
        } else {
            assert(s == t);
        }
    }
}

/// Where every name is plain, the names stand in the fingerprint as they are.
pub proof fn law_plain_names_stand_as_they_are(reachable: bool, names: Seq<Seq<char>>)
    requires
        forall|i: int| 0 <= i < names.len() ==> is_plain(#[trigger] names[i]),
    ensures
        fingerprint(reachable, names) == bool_text(reachable) + "|"@ + joined(
            sorted(names, text_order()),
            ","@,
        ),
{
    broadcast use vstd::seq_lib::group_to_multiset_ensures;

    let s = sorted(names, text_order());
    lemma_text_order();
    lemma_sorted(names, text_order());
    assert forall|i: int| 0 <= i < s.len() implies is_plain(#[trigger] s[i]) by {
        assert(s.contains(s[i]));
        assert(names.to_multiset().contains(s[i]));
        let k = choose|k: int| 0 <= k < names.len() && names[k] == s[i];
        assert(is_plain(names[k]));
    }
    lemma_plain_pieces(s);
}

proof fn lemma_plain_pieces(names: Seq<Seq<char>>)
    requires
        forall|i: int| 0 <= i < names.len() ==> is_plain(#[trigger] names[i]),
    ensures
        all_pieces(names) == names,
    decreases names.len(),
{
    if names.len() > 0 {
        let front = names.drop_last();
        assert forall|i: int| 0 <= i < front.len() implies is_plain(#[trigger] front[i]) by {
            assert(is_plain(names[i]));
        }
        lemma_plain_pieces(front);
        assert(is_plain(names[names.len() - 1]));
        assert(front + seq![names.last()] =~= names);
    } else {
        assert(all_pieces(names) =~= names);
    }
}

/// A fingerprint starts with the reachability.
pub proof fn law_fingerprint_starts_with_reachability(names: Seq<Seq<char>>)
    ensures
        "true|"@.is_prefix_of(fingerprint(true, names)),
        "false|"@.is_prefix_of(fingerprint(false, names)),
{
    reveal_strlit("true");
    reveal_strlit("false");
    reveal_strlit("|");
    reveal_strlit("true|");
    reveal_strlit("false|");
    assert("true|"@ =~= fingerprint(true, names).subrange(0, 5));
    assert("false|"@ =~= fingerprint(false, names).subrange(0, 6));
}

/// The names of a list of networks are those of its networks, in their order.
pub proof fn law_names(networks: Seq<NetworkView>)
    ensures
        names(networks).len() == networks.len(),
        forall|i: int|
            0 <= i < networks.len() ==> #[trigger] names(networks)[i] == networks[i].network,
{
}

} // verus!
