//! What the text building blocks and the order of text guarantee.
use crate::order::text_le;
use crate::text::{
    after_prefix, dec, digits_value, is_digit, is_white_space, joined, parsed, parsed_up_to,
    trimmed, trimmed_end, trimmed_start,
};
use vstd::prelude::*;

verus! {

// ---------------------------------------------------------------------------
// Decimal numbers
// ---------------------------------------------------------------------------

/// One digit is written as itself, and a further digit behind a number as one
/// more character behind it.
pub proof fn law_decimal_grows_by_digits(n: nat, d: nat)
    requires
        d < 10,
    ensures
        dec(d) == seq![(48 + d) as char],
        n > 0 ==> dec(10 * n + d) == dec(n).push((48 + d) as char),
{
    assert((10 * n + d) / 10 == n);
    assert((10 * n + d) % 10 == d);
}

/// A text denotes a number exactly when it is one or more of the characters `0`
/// to `9`, with at most one `+` in front.
pub proof fn law_number_grammar(s: Seq<char>)
    ensures
        parsed(s) is Some <==> {
            &&& s.len() > 0
            &&& ('0' <= s[0] <= '9' || (s[0] == '+' && s.len() > 1))
            &&& forall|i: int| 1 <= i < s.len() ==> '0' <= #[trigger] s[i] <= '9'
        },
{
    if s.len() > 0 && s[0] == '+' {
        let d = s.skip(1);
        assert forall|i: int| 1 <= i < s.len() implies #[trigger] s[i] == d[i - 1] by {}
        assert forall|i: int| 0 <= i < d.len() implies #[trigger] d[i] == s[i + 1] by {}
    }
}

/// Each further digit makes a number ten times as great, and adds its own value;
/// a `+` in front changes nothing.
pub proof fn law_number_value(s: Seq<char>, c: char)
    requires
        s.len() > 0,
        forall|i: int| 0 <= i < s.len() ==> '0' <= #[trigger] s[i] <= '9',
        '0' <= c <= '9',
    ensures
        parsed(seq![c]) == Some(c as int - 48),
        parsed(s) is Some,
        parsed(s.push(c)) == Some(10 * parsed(s)->Some_0 + (c as int - 48)),
        parsed(seq!['+'] + s) == parsed(s),
{
    reveal_with_fuel(digits_value, 2);
    assert(seq![c].drop_last() == Seq::<char>::empty());
    assert(s.push(c).drop_last() == s);
    assert((seq!['+'] + s).skip(1) == s);
    assert(s[0] != '+' && s.push(c)[0] != '+');
    assert forall|i: int| 0 <= i < s.push(c).len() implies is_digit(#[trigger] s.push(c)[i]) by {
        if i < s.len() {
            assert(s.push(c)[i] == s[i]);
        }
    }
}

/// A number counts only up to the greatest one that is allowed.
pub proof fn law_number_bound(s: Seq<char>, max: int, v: int)
    ensures
        parsed_up_to(s, max) == Some(v) <==> parsed(s) == Some(v) && v <= max,
        parsed_up_to(s, max) is Some ==> parsed(s) is Some,
{
}

// ---------------------------------------------------------------------------
// Prefixes, joining, replacing, trimming
// ---------------------------------------------------------------------------

/// What follows a prefix is what, put behind the prefix, gives the text again.
pub proof fn law_after_prefix(s: Seq<char>, prefix: Seq<char>, rest: Seq<char>)
    ensures
        after_prefix(s, prefix) == Some(rest) <==> s == prefix + rest,
        after_prefix(s, prefix) is None <==> !prefix.is_prefix_of(s),
{
    if s == prefix + rest {
        assert(s.take(prefix.len() as int) == prefix);
        assert(s.skip(prefix.len() as int) == rest);
    }
    if after_prefix(s, prefix) is Some {
        assert(s == s.take(prefix.len() as int) + s.skip(prefix.len() as int));
    }
    if prefix.is_prefix_of(s) {
        assert(s.take(prefix.len() as int) =~= prefix);
    }
}

/// Joining two lists gives the two joined texts with the separator between
/// them.
pub proof fn law_joined(a: Seq<Seq<char>>, b: Seq<Seq<char>>, sep: Seq<char>, x: Seq<char>)
    ensures
        joined(Seq::empty(), sep) == Seq::<char>::empty(),
        joined(seq![x], sep) == x,
        a.len() > 0 && b.len() > 0 ==> joined(a + b, sep) == joined(a, sep) + sep + joined(b, sep),
    decreases b.len(),
{
    if a.len() > 0 && b.len() > 0 {
        assert((a + b).drop_last() =~= a + b.drop_last());
        assert((a + b).last() == b.last());
        if b.len() == 1 {
            assert(a + b.drop_last() =~= a);
        } else {
            law_joined(a, b.drop_last(), sep, x);
            assert(joined(a + b, sep) =~= joined(a, sep) + sep + joined(b, sep));
        }
    }
}

/// All of it is white space.
pub open spec fn blank(s: Seq<char>) -> bool {
    forall|i: int| 0 <= i < s.len() ==> is_white_space(#[trigger] s[i])
}

/// Neither starts nor ends with white space.
pub open spec fn tight(s: Seq<char>) -> bool {
    s.len() > 0 ==> !is_white_space(s[0]) && !is_white_space(s.last())
}

proof fn lemma_trimmed_start(a: Seq<char>, t: Seq<char>)
    requires
        blank(a),
        t.len() > 0 ==> !is_white_space(t[0]),
    ensures
        trimmed_start(a + t) == t,
    decreases a.len(),
{
    if a.len() > 0 {
        assert((a + t)[0] == a[0]);
        assert((a + t).skip(1) =~= a.skip(1) + t);
        assert forall|i: int| 0 <= i < a.skip(1).len() implies is_white_space(
            #[trigger] a.skip(1)[i],
        ) by {
            assert(a.skip(1)[i] == a[i + 1]);
        }
        lemma_trimmed_start(a.skip(1), t);
    } else {
        assert(a + t =~= t);
    }
}

proof fn lemma_trimmed_end(t: Seq<char>, b: Seq<char>)
    requires
        blank(b),
        t.len() > 0 ==> !is_white_space(t.last()),
    ensures
        trimmed_end(t + b) == t,
    decreases b.len(),
{
    if b.len() > 0 {
        let front = b.drop_last();
        assert((t + b).last() == b[b.len() - 1]);
        assert((t + b).drop_last() =~= t + front);
        assert forall|i: int| 0 <= i < front.len() implies is_white_space(#[trigger] front[i]) by {
            assert(front[i] == b[i]);
        }
        lemma_trimmed_end(t, front);
    } else {
        assert(t + b =~= t);
    }
}

/// White space around a text goes, and what is left between it stays.
pub proof fn law_trimming_takes_white_space(a: Seq<char>, t: Seq<char>, b: Seq<char>)
    requires
        blank(a),
        blank(b),
        tight(t),
    ensures
        trimmed(a + t + b) == t,
{
    if t.len() > 0 {
        assert(a + t + b =~= a + (t + b));
        assert((t + b)[0] == t[0]);
        lemma_trimmed_start(a, t + b);
        lemma_trimmed_end(t, b);
    } else {
        let none = Seq::<char>::empty();
        assert(a + t + b =~= (a + b) + none);
        assert forall|i: int| 0 <= i < (a + b).len() implies is_white_space(
            #[trigger] (a + b)[i],
        ) by {
            if i < a.len() {
                assert((a + b)[i] == a[i]);
            } else {
                assert((a + b)[i] == b[i - a.len()]);
            }
        }
        lemma_trimmed_start(a + b, none);
        lemma_trimmed_end(none, none);
        assert(none + none =~= none);
        assert(t =~= none);
    }
}

proof fn lemma_start_parts(s: Seq<char>)
    ensures
        exists|a: Seq<char>|
            {
                &&& blank(a)
                &&& s == #[trigger] (a + trimmed_start(s))
            },
        trimmed_start(s).len() > 0 ==> !is_white_space(trimmed_start(s)[0]),
    decreases s.len(),
{
    if s.len() > 0 && is_white_space(s[0]) {
        lemma_start_parts(s.skip(1));
        let a = choose|a: Seq<char>|
            blank(a) && s.skip(1) == #[trigger] (a + trimmed_start(s.skip(1)));
        let c = seq![s[0]] + a;
        assert forall|i: int| 0 <= i < c.len() implies is_white_space(#[trigger] c[i]) by {
            if i > 0 {
                assert(c[i] == a[i - 1]);
            }
        }
        assert(s =~= seq![s[0]] + s.skip(1));
        assert(s =~= c + trimmed_start(s));
    } else {
        assert(s =~= Seq::<char>::empty() + trimmed_start(s));
    }
}

proof fn lemma_end_parts(s: Seq<char>)
    ensures
        exists|b: Seq<char>|
            {
                &&& blank(b)
                &&& s == #[trigger] (trimmed_end(s) + b)
            },
        trimmed_end(s).len() > 0 ==> {
            &&& !is_white_space(trimmed_end(s).last())
            &&& trimmed_end(s)[0] == s[0]
        },
    decreases s.len(),
{
    if s.len() > 0 && is_white_space(s.last()) {
        let front = s.drop_last();
        lemma_end_parts(front);
        let b = choose|b: Seq<char>| blank(b) && front == #[trigger] (trimmed_end(front) + b);
        let c = b.push(s.last());
        assert forall|i: int| 0 <= i < c.len() implies is_white_space(#[trigger] c[i]) by {
            if i < b.len() {
                assert(c[i] == b[i]);
            }
        }
        assert(s =~= front.push(s.last()));
        assert(s =~= trimmed_end(s) + c);
    } else {
        assert(s =~= trimmed_end(s) + Seq::<char>::empty());
    }
}

/// Every text is what trimming leaves, with nothing but white space around it.
pub proof fn law_trimming_leaves_the_rest(s: Seq<char>)
    ensures
        tight(trimmed(s)),
        exists|a: Seq<char>, b: Seq<char>|
            {
                &&& blank(a)
                &&& blank(b)
                &&& s == #[trigger] (a + trimmed(s) + b)
            },
{
    let t = trimmed_start(s);
    lemma_start_parts(s);
    lemma_end_parts(t);
    let a = choose|a: Seq<char>| blank(a) && s == #[trigger] (a + t);
    let b = choose|b: Seq<char>| blank(b) && t == #[trigger] (trimmed_end(t) + b);
    assert(s =~= a + trimmed(s) + b);
}

// ---------------------------------------------------------------------------
// The order of text
// ---------------------------------------------------------------------------

/// Text is ordered by the first character in which it differs, and a text comes
/// before those that go on after it.
pub proof fn law_text_order(p: Seq<char>, x: char, u: Seq<char>, y: char, v: Seq<char>)
    ensures
        x < y ==> text_le(p + seq![x] + u, p + seq![y] + v) && !text_le(
            p + seq![y] + v,
            p + seq![x] + u,
        ),
        text_le(p, p + seq![x] + u),
        !text_le(p + seq![x] + u, p),
    decreases p.len(),
{
    let a = p + seq![x] + u;
    let b = p + seq![y] + v;
    if p.len() > 0 {
        assert(a.skip(1) =~= p.skip(1) + seq![x] + u);
        assert(b.skip(1) =~= p.skip(1) + seq![y] + v);
        assert(a[0] == p[0] && b[0] == p[0]);
        law_text_order(p.skip(1), x, u, y, v);
    } else {
        assert(a[0] == x && b[0] == y);
    }
}

} // verus!
