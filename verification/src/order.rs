//! Lexicographic order on strings, seen as sequences of characters, and the
//! sorted listing of a set of strings.

use vstd::prelude::*;

verus! {

/// `a` comes before `b`, or equals it, when the two are compared character by
/// character by code point, a proper prefix coming first.
pub open spec fn lex_le(a: Seq<char>, b: Seq<char>) -> bool
    decreases a.len(),
{
    if a.len() == 0 {
        true
    } else if b.len() == 0 {
        false
    } else if a[0] == b[0] {
        lex_le(a.skip(1), b.skip(1))
    } else {
        (a[0] as int) < (b[0] as int)
    }
}

/// `a` comes strictly before `b`.
pub open spec fn lex_lt(a: Seq<char>, b: Seq<char>) -> bool {
    lex_le(a, b) && a != b
}

/// Every entry comes before, or equals, every later entry.
pub open spec fn ascending(l: Seq<Seq<char>>) -> bool {
    forall|i: int, j: int| 0 <= i < j < l.len() ==> lex_le(#[trigger] l[i], #[trigger] l[j])
}

/// Every entry comes strictly before every later entry.
pub open spec fn strictly_ascending(l: Seq<Seq<char>>) -> bool {
    forall|i: int, j: int| 0 <= i < j < l.len() ==> lex_lt(#[trigger] l[i], #[trigger] l[j])
}

/// `l` lists exactly the strings of `s`, each once, in ascending order.
pub open spec fn is_sorted_listing(l: Seq<Seq<char>>, s: Set<Seq<char>>) -> bool {
    &&& strictly_ascending(l)
    &&& forall|x: Seq<char>| l.contains(x) <==> s.contains(x)
}

/// The sorted listing of `s`.
pub open spec fn sorted_listing(s: Set<Seq<char>>) -> Seq<Seq<char>> {
    choose|l: Seq<Seq<char>>| is_sorted_listing(l, s)
}

/// A list cut to its first `n` entries where a limit `n` is given and the list
/// is longer; the whole list otherwise.
pub open spec fn truncated(l: Seq<Seq<char>>, limit: Option<usize>) -> Seq<Seq<char>> {
    match limit {
        Some(n) => if n < l.len() {
            l.take(n as int)
        } else {
            l
        },
        None => l,
    }
}

/// Every string comes before or equals itself.
pub proof fn lemma_lex_le_reflexive(a: Seq<char>)
    ensures
        lex_le(a, a),
    decreases a.len(),
{
    if a.len() > 0 {
        lemma_lex_le_reflexive(a.skip(1));
    }
}

/// Of two strings, one comes before or equals the other.
pub proof fn lemma_lex_le_total(a: Seq<char>, b: Seq<char>)
    ensures
        lex_le(a, b) || lex_le(b, a),
    decreases a.len(),
{
    if a.len() > 0 && b.len() > 0 {
        if a[0] == b[0] {
            lemma_lex_le_total(a.skip(1), b.skip(1));
        } else {
            assert(a[0] as int != b[0] as int);
        }
    }
}

/// What comes before a string comes before everything that the string comes
/// before.
pub proof fn lemma_lex_le_transitive(a: Seq<char>, b: Seq<char>, c: Seq<char>)
    requires
        lex_le(a, b),
        lex_le(b, c),
    ensures
        lex_le(a, c),
    decreases a.len(),
{
    if a.len() > 0 && a[0] == b[0] && b[0] == c[0] {
        lemma_lex_le_transitive(a.skip(1), b.skip(1), c.skip(1));
    }
}

/// Two strings that come before each other are the same string.
pub proof fn lemma_lex_le_antisymmetric(a: Seq<char>, b: Seq<char>)
    requires
        lex_le(a, b),
        lex_le(b, a),
    ensures
        a == b,
    decreases a.len(),
{
    if a.len() == 0 {
        assert(b.len() == 0);
        assert(a =~= b);
    } else {
        assert(b.len() > 0);
        assert(a[0] == b[0]);
        lemma_lex_le_antisymmetric(a.skip(1), b.skip(1));
        assert(a =~= seq![a[0]] + a.skip(1));
        assert(b =~= seq![b[0]] + b.skip(1));
    }
}

/// An ascending list without duplicates is strictly ascending.
pub proof fn lemma_ascending_distinct_is_strict(l: Seq<Seq<char>>)
    requires
        ascending(l),
        l.no_duplicates(),
    ensures
        strictly_ascending(l),
{
}

/// A strictly ascending list is ascending and holds no string twice.
pub proof fn lemma_strict_is_ascending_distinct(l: Seq<Seq<char>>)
    requires
        strictly_ascending(l),
    ensures
        ascending(l),
        l.no_duplicates(),
{
    assert forall|i: int, j: int| 0 <= i < l.len() && 0 <= j < l.len() && i != j implies l[i]
        != l[j] by {
        if i < j {
            assert(lex_lt(l[i], l[j]));
        } else {
            assert(lex_lt(l[j], l[i]));
        }
    }
}

/// A set of strings has at most one sorted listing.
pub proof fn lemma_sorted_listing_unique(a: Seq<Seq<char>>, b: Seq<Seq<char>>, s: Set<Seq<char>>)
    requires
        is_sorted_listing(a, s),
        is_sorted_listing(b, s),
    ensures
        a == b,
    decreases a.len(),
{
    if a.len() == 0 {
        if b.len() > 0 {
            assert(b.contains(b[0]));
        }
        assert(a =~= b);
    } else if b.len() == 0 {
        assert(a.contains(a[0]));
    } else {
        assert(a.contains(a[0]));
        assert(b.contains(b[0]));
        let k = choose|k: int| 0 <= k < b.len() && b[k] == a[0];
        let m = choose|m: int| 0 <= m < a.len() && a[m] == b[0];
        if k != 0 && m != 0 {
            assert(lex_lt(a[0], a[m]));
            assert(lex_lt(b[0], b[k]));
            lemma_lex_le_antisymmetric(a[0], b[0]);
        }
        assert(a[0] == b[0]);
        let first = a[0];
        let ta = a.skip(1);
        let tb = b.skip(1);
        let rest = s.remove(first);
        assert forall|x: Seq<char>| ta.contains(x) <==> rest.contains(x) by {
            if ta.contains(x) {
                let i = choose|i: int| 0 <= i < ta.len() && ta[i] == x;
                assert(a[i + 1] == x);
                assert(lex_lt(a[0], a[i + 1]));
                assert(a.contains(x));
            }
            if rest.contains(x) {
                assert(a.contains(x));
                let i = choose|i: int| 0 <= i < a.len() && a[i] == x;
                assert(ta[i - 1] == x);
            }
        }
        assert forall|x: Seq<char>| tb.contains(x) <==> rest.contains(x) by {
            if tb.contains(x) {
                let i = choose|i: int| 0 <= i < tb.len() && tb[i] == x;
                assert(b[i + 1] == x);
                assert(lex_lt(b[0], b[i + 1]));
                assert(b.contains(x));
            }
            if rest.contains(x) {
                assert(b.contains(x));
                let i = choose|i: int| 0 <= i < b.len() && b[i] == x;
                assert(tb[i - 1] == x);
            }
        }
        assert forall|i: int, j: int| 0 <= i < j < ta.len() implies lex_lt(
            #[trigger] ta[i],
            #[trigger] ta[j],
        ) by {
            assert(lex_lt(a[i + 1], a[j + 1]));
        }
        assert forall|i: int, j: int| 0 <= i < j < tb.len() implies lex_lt(
            #[trigger] tb[i],
            #[trigger] tb[j],
        ) by {
            assert(lex_lt(b[i + 1], b[j + 1]));
        }
        lemma_sorted_listing_unique(ta, tb, rest);
        assert(a =~= seq![first] + ta);
        assert(b =~= seq![first] + tb);
    }
}

/// `l` with `x` put before its first entry that `x` comes before or equals.
pub open spec fn placed(l: Seq<Seq<char>>, x: Seq<char>) -> Seq<Seq<char>>
    decreases l.len(),
{
    if l.len() == 0 {
        seq![x]
    } else if lex_le(x, l[0]) {
        seq![x] + l
    } else {
        seq![l[0]] + placed(l.skip(1), x)
    }
}

/// Placing a new string into a strictly ascending list keeps the list
/// strictly ascending and adds that string to it, nothing else.
pub proof fn lemma_placed_is_sorted(l: Seq<Seq<char>>, x: Seq<char>)
    requires
        strictly_ascending(l),
        !l.contains(x),
    ensures
        strictly_ascending(placed(l, x)),
        placed(l, x).len() == l.len() + 1,
        forall|y: Seq<char>| #[trigger] placed(l, x).contains(y) <==> (y == x || l.contains(y)),
    decreases l.len(),
{
    let r = placed(l, x);
    if l.len() == 0 {
        assert(r[0] == x);
        assert forall|y: Seq<char>| r.contains(y) <==> (y == x || l.contains(y)) by {
            if r.contains(y) {
                let i = choose|i: int| 0 <= i < r.len() && r[i] == y;
            }
        }
    } else if lex_le(x, l[0]) {
        assert(r[0] == x);
        assert forall|i: int, j: int| 0 <= i < j < r.len() implies lex_lt(
            #[trigger] r[i],
            #[trigger] r[j],
        ) by {
            assert(r[j] == l[j - 1]);
            assert(l.contains(l[j - 1]));
            if i == 0 {
                if j > 1 {
                    assert(lex_lt(l[0], l[j - 1]));
                    lemma_lex_le_transitive(x, l[0], l[j - 1]);
                }
            } else {
                assert(r[i] == l[i - 1]);
                assert(lex_lt(l[i - 1], l[j - 1]));
            }
        }
        assert forall|y: Seq<char>| r.contains(y) <==> (y == x || l.contains(y)) by {
            if r.contains(y) {
                let i = choose|i: int| 0 <= i < r.len() && r[i] == y;
                if i > 0 {
                    assert(l[i - 1] == y);
                }
            }
            if l.contains(y) {
                let i = choose|i: int| 0 <= i < l.len() && l[i] == y;
                assert(r[i + 1] == y);
            }
        }
    } else {
        let t = l.skip(1);
        let rt = placed(t, x);
        assert forall|i: int, j: int| 0 <= i < j < t.len() implies lex_lt(
            #[trigger] t[i],
            #[trigger] t[j],
        ) by {
            assert(lex_lt(l[i + 1], l[j + 1]));
        }
        assert(!t.contains(x)) by {
            if t.contains(x) {
                let i = choose|i: int| 0 <= i < t.len() && t[i] == x;
                assert(l[i + 1] == x);
            }
        }
        lemma_placed_is_sorted(t, x);
        lemma_lex_le_total(x, l[0]);
        assert(l.contains(l[0]));
        assert(r[0] == l[0]);
        assert forall|i: int, j: int| 0 <= i < j < r.len() implies lex_lt(
            #[trigger] r[i],
            #[trigger] r[j],
        ) by {
            assert(r[j] == rt[j - 1]);
            if i == 0 {
                assert(rt.contains(rt[j - 1]));
                if rt[j - 1] != x {
                    let k = choose|k: int| 0 <= k < t.len() && t[k] == rt[j - 1];
                    assert(lex_lt(l[0], l[k + 1]));
                }
            } else {
                assert(r[i] == rt[i - 1]);
                assert(lex_lt(rt[i - 1], rt[j - 1]));
            }
        }
        assert forall|y: Seq<char>| r.contains(y) <==> (y == x || l.contains(y)) by {
            if r.contains(y) {
                let i = choose|i: int| 0 <= i < r.len() && r[i] == y;
                if i > 0 {
                    assert(rt[i - 1] == y);
                    assert(rt.contains(y));
                    if y != x {
                        let k = choose|k: int| 0 <= k < t.len() && t[k] == y;
                        assert(l[k + 1] == y);
                    }
                }
            }
            if y == x {
                assert(rt.contains(x));
                let k = choose|k: int| 0 <= k < rt.len() && rt[k] == x;
                assert(r[k + 1] == x);
            }
            if l.contains(y) {
                let i = choose|i: int| 0 <= i < l.len() && l[i] == y;
                if i > 0 {
                    assert(t[i - 1] == y);
                    assert(rt.contains(y));
                    let k = choose|k: int| 0 <= k < rt.len() && rt[k] == y;
                    assert(r[k + 1] == y);
                }
            }
        }
    }
}

/// Every finite set of strings has a sorted listing, which `sorted_listing`
/// names.
pub proof fn lemma_sorted_listing_exists(s: Set<Seq<char>>)
    requires
        s.finite(),
    ensures
        is_sorted_listing(sorted_listing(s), s),
        sorted_listing(s).len() == s.len(),
    decreases s.len(),
{
    if s.len() == 0 {
        let l = Seq::<Seq<char>>::empty();
        assert(s =~= Set::<Seq<char>>::empty()) by {
            if exists|x: Seq<char>| s.contains(x) {
                let x = choose|x: Seq<char>| s.contains(x);
                assert(s.remove(x).len() + 1 == s.len());
            }
        }
        assert(is_sorted_listing(l, s));
        lemma_sorted_listing_unique(l, sorted_listing(s), s);
    } else {
        let x = s.choose();
        let rest = s.remove(x);
        lemma_sorted_listing_exists(rest);
        let l = sorted_listing(rest);
        lemma_placed_is_sorted(l, x);
        assert(is_sorted_listing(placed(l, x), s));
        lemma_sorted_listing_unique(placed(l, x), sorted_listing(s), s);
    }
}

} // verus!
