//! Lexicographic order of text, and sorting by insertion.
//!
//! Text is ordered by code points, which is also the order of its UTF-8 bytes.
use crate::text::chars_of;
use vstd::prelude::*;

verus! {

/// `a` comes before `b`, or they are equal, in lexicographic order.
pub open spec fn text_le(a: Seq<char>, b: Seq<char>) -> bool
    decreases a.len(),
{
    if a.len() == 0 {
        true
    } else if b.len() == 0 {
        false
    } else if a[0] != b[0] {
        a[0] < b[0]
    } else {
        text_le(a.skip(1), b.skip(1))
    }
}

/// Whether `a` comes before `b`, or they are equal.
pub fn is_text_le(a: &str, b: &str) -> (r: bool)
    ensures
        r == text_le(a@, b@),
{
    let x: Vec<char> = chars_of(a);
    let y: Vec<char> = chars_of(b);
    let mut i: usize = 0;
    assert(a@.skip(0) == a@);
    assert(b@.skip(0) == b@);
    while i < x.len() && i < y.len()
        invariant
            x@ == a@,
            y@ == b@,
            i <= x.len(),
            i <= y.len(),
            text_le(a@, b@) == text_le(a@.skip(i as int), b@.skip(i as int)),
        decreases x.len() - i,
    {
        if x[i] != y[i] {
            return x[i] < y[i];
        }
        assert(a@.skip(i as int).skip(1) == a@.skip(i + 1));
        assert(b@.skip(i as int).skip(1) == b@.skip(i + 1));
        i = i + 1;
    }
    i == x.len()
}

/// Lexicographic order is total: any two texts are ordered one way or the
/// other, and both ways only where they are equal.
pub proof fn lemma_text_le_total(a: Seq<char>, b: Seq<char>)
    ensures
        text_le(a, a),
        text_le(a, b) || text_le(b, a),
        text_le(a, b) && text_le(b, a) ==> a == b,
    decreases a.len(),
{
    if a.len() == 0 {
        assert(b.len() == 0 ==> a == b);
    } else if b.len() > 0 {
        lemma_text_le_total(a.skip(1), b.skip(1));
        lemma_text_le_total(a.skip(1), a.skip(1));
        if a[0] == b[0] && a.skip(1) == b.skip(1) {
            assert(a == seq![a[0]] + a.skip(1));
            assert(b == seq![b[0]] + b.skip(1));
        }
    } else {
        lemma_text_le_total(a.skip(1), a.skip(1));
    }
}

/// Lexicographic order is transitive.
pub proof fn lemma_text_le_transitive(a: Seq<char>, b: Seq<char>, c: Seq<char>)
    requires
        text_le(a, b),
        text_le(b, c),
    ensures
        text_le(a, c),
    decreases a.len(),
{
    if a.len() > 0 && a[0] == b[0] && b[0] == c[0] {
        lemma_text_le_transitive(a.skip(1), b.skip(1), c.skip(1));
    }
}

/// `x` put into `s`, behind the last element that is not greater.
pub open spec fn inserted<T>(s: Seq<T>, x: T, le: spec_fn(T, T) -> bool) -> Seq<T>
    decreases s.len(),
{
    if s.len() == 0 || le(s.last(), x) {
        s.push(x)
    } else {
        inserted(s.drop_last(), x, le).push(s.last())
    }
}

/// `s` in the order of `le`; elements that are equal in it keep their order.
pub open spec fn sorted<T>(s: Seq<T>, le: spec_fn(T, T) -> bool) -> Seq<T>
    decreases s.len(),
{
    if s.len() == 0 {
        s
    } else {
        inserted(sorted(s.drop_last(), le), s.last(), le)
    }
}

/// Where [`inserted`] puts its element.
pub proof fn lemma_inserted_at<T>(s: Seq<T>, x: T, le: spec_fn(T, T) -> bool, k: int)
    requires
        0 <= k <= s.len(),
        k > 0 ==> le(s[k - 1], x),
        forall|i: int| k <= i < s.len() ==> !le(#[trigger] s[i], x),
    ensures
        inserted(s, x, le) == s.insert(k, x),
    decreases s.len(),
{
    if k == s.len() {
        assert(s.insert(k, x) == s.push(x));
    } else {
        assert(!le(s.last(), x));
        lemma_inserted_at(s.drop_last(), x, le, k);
        assert(s.insert(k, x) == s.drop_last().insert(k, x).push(s.last()));
    }
}

/// A preorder in which any two elements are related.
pub open spec fn total_preorder<T>(le: spec_fn(T, T) -> bool) -> bool {
    &&& forall|a: T, b: T| #[trigger] le(a, b) || le(b, a)
    &&& forall|a: T, b: T, c: T| #[trigger] le(a, b) && #[trigger] le(b, c) ==> le(a, c)
}

/// Each element is related to all that follow it.
pub open spec fn in_order<T>(s: Seq<T>, le: spec_fn(T, T) -> bool) -> bool {
    forall|i: int, j: int| 0 <= i < j < s.len() ==> le(#[trigger] s[i], #[trigger] s[j])
}

spec fn none_above<T>(s: Seq<T>, y: T, le: spec_fn(T, T) -> bool) -> bool {
    forall|i: int| 0 <= i < s.len() ==> le(#[trigger] s[i], y)
}

proof fn lemma_inserted<T>(s: Seq<T>, x: T, le: spec_fn(T, T) -> bool)
    requires
        total_preorder(le),
        in_order(s, le),
    ensures
        in_order(inserted(s, x, le), le),
        inserted(s, x, le).to_multiset() == s.to_multiset().insert(x),
        inserted(s, x, le).len() == s.len() + 1,
        forall|y: T| #[trigger] none_above(s, y, le) && le(x, y) ==> none_above(
            inserted(s, x, le),
            y,
            le,
        ),
    decreases s.len(),
{
    broadcast use vstd::seq_lib::to_multiset_build;

    let r = inserted(s, x, le);
    if s.len() == 0 || le(s.last(), x) {
        assert forall|i: int, j: int| 0 <= i < j < r.len() implies le(
            #[trigger] r[i],
            #[trigger] r[j],
        ) by {
            if j == s.len() && i < s.len() - 1 {
                assert(le(s[i], s[s.len() - 1]));
            }
        }
    } else {
        let t = s.drop_last();
        let l = s.last();
        assert(le(x, l));
        assert(s == t.push(l));
        assert(in_order(t, le));
        lemma_inserted(t, x, le);
        assert forall|i: int| 0 <= i < t.len() implies le(#[trigger] t[i], l) by {
            assert(le(s[i], s[s.len() - 1]));
        }
        assert(none_above(t, l, le));
        let u = inserted(t, x, le);
        assert forall|i: int, j: int| 0 <= i < j < r.len() implies le(
            #[trigger] r[i],
            #[trigger] r[j],
        ) by {
            if j < u.len() {
                assert(le(u[i], u[j]));
            } else {
                assert(le(u[i], l));
            }
        }
        assert forall|y: T| #[trigger] none_above(s, y, le) && le(x, y) implies none_above(
            r,
            y,
            le,
        ) by {
            assert forall|i: int| 0 <= i < t.len() implies le(#[trigger] t[i], y) by {
                assert(le(s[i], y));
            }
            assert(none_above(t, y, le));
            assert(le(s[s.len() - 1], y));
        }
        assert(t.to_multiset().insert(x).insert(l) =~= t.to_multiset().insert(l).insert(x));
    }
}

/// Sorting puts the elements in order, and keeps each of them.
pub proof fn lemma_sorted<T>(s: Seq<T>, le: spec_fn(T, T) -> bool)
    requires
        total_preorder(le),
    ensures
        in_order(sorted(s, le), le),
        sorted(s, le).to_multiset() == s.to_multiset(),
        sorted(s, le).len() == s.len(),
    decreases s.len(),
{
    broadcast use vstd::seq_lib::to_multiset_build;

    if s.len() > 0 {
        lemma_sorted(s.drop_last(), le);
        lemma_inserted(sorted(s.drop_last(), le), s.last(), le);
        assert(s == s.drop_last().push(s.last()));
    }
}

/// Any two elements of `s` that are related both ways are equal.
pub open spec fn antisymmetric_on<T>(s: Seq<T>, le: spec_fn(T, T) -> bool) -> bool {
    forall|i: int, j: int|
        0 <= i < s.len() && 0 <= j < s.len() && le(s[i], s[j]) && le(s[j], s[i]) ==> #[trigger] s[i]
            == #[trigger] s[j]
}

/// Where elements that are related both ways are equal, there is only one way
/// to put them in order.
pub proof fn lemma_in_order_unique<T>(x: Seq<T>, y: Seq<T>, le: spec_fn(T, T) -> bool)
    requires
        in_order(x, le),
        in_order(y, le),
        antisymmetric_on(x, le),
        x.to_multiset() == y.to_multiset(),
    ensures
        x == y,
    decreases x.len(),
{
    broadcast use vstd::seq_lib::group_to_multiset_ensures;

    assert(x.len() == y.len()) by {
        assert(x.to_multiset().len() == x.len());
        assert(y.to_multiset().len() == y.len());
    }
    if x.len() == 0 {
        assert(x == y);
    } else {
        let a = x.last();
        let b = y.last();
        let n = x.len() - 1;
        assert(y.contains(a)) by {
            assert(x.contains(x[n]));
            assert(y.to_multiset().contains(a));
        }
        assert(x.contains(b)) by {
            assert(y.contains(y[n]));
            assert(x.to_multiset().contains(b));
        }
        let i = choose|i: int| 0 <= i < x.len() && x[i] == b;
        let j = choose|j: int| 0 <= j < y.len() && y[j] == a;
        assert(a == b) by {
            if i < n && j < n {
                assert(le(x[i], x[n]));
                assert(le(y[j], y[n]));
                assert(x[i] == x[n]);
            }
        }
        let u = x.drop_last();
        let v = y.drop_last();
        assert(u.push(a) == x);
        assert(v.push(b) == y);
        assert(u.to_multiset() =~= x.to_multiset().remove(a));
        assert(v.to_multiset() =~= y.to_multiset().remove(b));
        assert(antisymmetric_on(u, le)) by {
            assert forall|i: int, j: int|
                0 <= i < u.len() && 0 <= j < u.len() && le(u[i], u[j]) && le(
                    u[j],
                    u[i],
                ) implies #[trigger] u[i] == #[trigger] u[j] by {
                assert(x[i] == x[j]);
            }
        }
        assert(in_order(u, le)) by {
            assert forall|i: int, j: int| 0 <= i < j < u.len() implies le(
                #[trigger] u[i],
                #[trigger] u[j],
            ) by {
                assert(le(x[i], x[j]));
            }
        }
        assert(in_order(v, le)) by {
            assert forall|i: int, j: int| 0 <= i < j < v.len() implies le(
                #[trigger] v[i],
                #[trigger] v[j],
            ) by {
                assert(le(y[i], y[j]));
            }
        }
        lemma_in_order_unique(u, v, le);
    }
}

/// [`text_le`] as a relation.
pub open spec fn text_order() -> spec_fn(Seq<char>, Seq<char>) -> bool {
    |a: Seq<char>, b: Seq<char>| text_le(a, b)
}

/// [`text_order`] can be sorted by.
pub proof fn lemma_text_order()
    ensures
        total_preorder(text_order()),
        forall|s: Seq<Seq<char>>| #[trigger] antisymmetric_on(s, text_order()),
{
    let le = text_order();
    assert forall|a: Seq<char>, b: Seq<char>| #[trigger] le(a, b) || le(b, a) by {
        lemma_text_le_total(a, b);
    }
    assert forall|a: Seq<char>, b: Seq<char>, c: Seq<char>| #[trigger]
        le(a, b) && #[trigger] le(b, c) implies le(a, c) by {
        lemma_text_le_transitive(a, b, c);
    }
    assert forall|s: Seq<Seq<char>>| #[trigger] antisymmetric_on(s, le) by {
        assert forall|i: int, j: int|
            0 <= i < s.len() && 0 <= j < s.len() && le(s[i], s[j]) && le(
                s[j],
                s[i],
            ) implies #[trigger] s[i] == #[trigger] s[j] by {
            lemma_text_le_total(s[i], s[j]);
        }
    }
}

} // verus!
