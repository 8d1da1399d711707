//! The order of texts, and lists kept in that order without repeats.

use vstd::prelude::*;
use vstd::std_specs::iter::IteratorSpec;

verus! {

/// `a` comes before `b` in the order of `str`: at the first position where
/// they differ `a` has the smaller code point, or `a` ends there and `b`
/// goes on.
pub open spec fn lex_less(a: Seq<char>, b: Seq<char>) -> bool
    decreases a.len(),
{
    if b.len() == 0 {
        false
    } else if a.len() == 0 {
        true
    } else if a[0] != b[0] {
        a[0] < b[0]
    } else {
        lex_less(a.drop_first(), b.drop_first())
    }
}

/// No text comes before itself.
pub proof fn lemma_lex_irreflexive(a: Seq<char>)
    ensures
        !lex_less(a, a),
    decreases a.len(),
{
    if a.len() > 0 {
        lemma_lex_irreflexive(a.drop_first());
    }
}

/// What comes before a text comes before all that the text comes before.
pub proof fn lemma_lex_transitive(a: Seq<char>, b: Seq<char>, c: Seq<char>)
    requires
        lex_less(a, b),
        lex_less(b, c),
    ensures
        lex_less(a, c),
    decreases a.len(),
{
    if a.len() > 0 && a[0] == b[0] && b[0] == c[0] {
        lemma_lex_transitive(a.drop_first(), b.drop_first(), c.drop_first());
    }
}

/// Of two different texts one comes before the other.
pub proof fn lemma_lex_connected(a: Seq<char>, b: Seq<char>)
    ensures
        lex_less(a, b) || lex_less(b, a) || a == b,
    decreases a.len(),
{
    if a.len() > 0 && b.len() > 0 && a[0] == b[0] {
        lemma_lex_connected(a.drop_first(), b.drop_first());
        if a.drop_first() == b.drop_first() {
            assert(b =~= seq![b[0]] + b.drop_first());
        }
    } else if a.len() == 0 && b.len() == 0 {
        assert(a =~= b);
    }
}

/// Two texts with the same first `k` characters are ordered as what
/// follows those characters.
proof fn lemma_lex_common_prefix(a: Seq<char>, b: Seq<char>, k: int)
    requires
        0 <= k <= a.len(),
        k <= b.len(),
        a.take(k) == b.take(k),
    ensures
        lex_less(a, b) == lex_less(a.skip(k), b.skip(k)),
    decreases k,
{
    if k == 0 {
        assert(a.skip(0) == a);
        assert(b.skip(0) == b);
    } else {
        assert(b[0] == b.take(k)[0]);
        assert(a.drop_first().take(k - 1) =~= a.take(k).drop_first());
        assert(b.drop_first().take(k - 1) =~= b.take(k).drop_first());
        lemma_lex_common_prefix(a.drop_first(), b.drop_first(), k - 1);
        assert(a.drop_first().skip(k - 1) == a.skip(k));
        assert(b.drop_first().skip(k - 1) == b.skip(k));
    }
}

/// How one text stands to another in the order of `str`.
#[derive(Clone, Copy, Debug, PartialEq, Eq, Structural)]
pub enum Order {
    Before,
    Same,
    After,
}

/// Where `a` stands to `b` in the order of `str`.
pub fn str_order(a: &str, b: &str) -> (r: Order)
    ensures
        match r {
            Order::Before => lex_less(a@, b@),
            Order::Same => a@ == b@,
            Order::After => lex_less(b@, a@),
        },
{
    broadcast use vstd::string::group_string_axioms;

    let mut ia = a.chars();
    let mut ib = b.chars();
    let ghost mut k: int = 0;
    loop
        invariant
            0 <= k <= a@.len(),
            k <= b@.len(),
            ia.remaining() == a@.skip(k),
            ib.remaining() == b@.skip(k),
            a@.take(k) == b@.take(k),
            ia.obeys_prophetic_iter_laws(),
            ib.obeys_prophetic_iter_laws(),
        decreases a@.len() - k,
    {
        proof {
            lemma_lex_common_prefix(a@, b@, k);
            lemma_lex_common_prefix(b@, a@, k);
        }
        let x = ia.next();
        let y = ib.next();
        match (x, y) {
            (None, None) => {
                assert(b@ =~= b@.take(k));
                return Order::Same;
            },
            (None, Some(_)) => {
                return Order::Before;
            },
            (Some(_), None) => {
                return Order::After;
            },
            (Some(c), Some(d)) => {
                if c != d {
                    return if c < d {
                        Order::Before
                    } else {
                        Order::After
                    };
                }
                proof {
                    k = k + 1;
                }
            },
        }
    }
}

/// Each text of `s` comes before the next: ascending, with nothing twice.
pub open spec fn strictly_sorted(s: Seq<Seq<char>>) -> bool {
    forall|i: int, j: int| 0 <= i < j < s.len() ==> lex_less(#[trigger] s[i], #[trigger] s[j])
}

/// In a list in strict order no text occurs at two positions.
pub proof fn lemma_sorted_distinct(s: Seq<Seq<char>>)
    requires
        strictly_sorted(s),
    ensures
        forall|i: int, j: int| 0 <= i < s.len() && 0 <= j < s.len() && i != j ==> s[i] != s[j],
{
    assert forall|i: int, j: int| 0 <= i < s.len() && 0 <= j < s.len() && i != j implies s[i]
        != s[j] by {
        lemma_lex_irreflexive(s[i]);
        if i < j {
            assert(lex_less(s[i], s[j]));
        } else {
            assert(lex_less(s[j], s[i]));
        }
    }
}

/// `r` holds the texts of `s`, each once, in ascending order.
pub open spec fn is_sorted_unique_of(r: Seq<Seq<char>>, s: Seq<Seq<char>>) -> bool {
    &&& strictly_sorted(r)
    &&& forall|x: Seq<char>| r.contains(x) <==> s.contains(x)
}

/// The texts of `s`, each once, in ascending order.
pub open spec fn sorted_unique(s: Seq<Seq<char>>) -> Seq<Seq<char>> {
    choose|r: Seq<Seq<char>>| is_sorted_unique_of(r, s)
}

/// Two lists in strict order that hold the same texts are one list.
pub proof fn lemma_sorted_unique_one(a: Seq<Seq<char>>, b: Seq<Seq<char>>)
    requires
        strictly_sorted(a),
        strictly_sorted(b),
        forall|x: Seq<char>| a.contains(x) <==> b.contains(x),
    ensures
        a == b,
    decreases a.len(),
{
    if a.len() == 0 {
        if b.len() > 0 {
            assert(b.contains(b[0]));
        }
    } else {
        let top = a.last();
        assert(b.contains(top));
        if b.last() != top {
            let j = choose|j: int| 0 <= j < b.len() && b[j] == top;
            assert(lex_less(b[j], b[b.len() - 1]));
            assert(b.contains(b.last()));
            let i = choose|i: int| 0 <= i < a.len() && a[i] == b.last();
            lemma_lex_irreflexive(top);
            if i < a.len() - 1 {
                lemma_lex_transitive(top, b.last(), top);
            }
        }
        let a0 = a.drop_last();
        let b0 = b.drop_last();
        lemma_sorted_distinct(a);
        lemma_sorted_distinct(b);
        assert forall|x: Seq<char>| a0.contains(x) <==> b0.contains(x) by {
            if a0.contains(x) {
                let i = choose|i: int| 0 <= i < a0.len() && a0[i] == x;
                assert(a[i] == x);
                assert(a.contains(x));
                let j = choose|j: int| 0 <= j < b.len() && b[j] == x;
                assert(b0[j] == x);
            }
            if b0.contains(x) {
                let j = choose|j: int| 0 <= j < b0.len() && b0[j] == x;
                assert(b[j] == x);
                assert(b.contains(x));
                let i = choose|i: int| 0 <= i < a.len() && a[i] == x;
                assert(a0[i] == x);
            }
        }
        assert(strictly_sorted(a0)) by {
            assert forall|i: int, j: int| 0 <= i < j < a0.len() implies lex_less(
                #[trigger] a0[i],
                #[trigger] a0[j],
            ) by {
                assert(lex_less(a[i], a[j]));
            }
        }
        assert(strictly_sorted(b0)) by {
            assert forall|i: int, j: int| 0 <= i < j < b0.len() implies lex_less(
                #[trigger] b0[i],
                #[trigger] b0[j],
            ) by {
                assert(lex_less(b[i], b[j]));
            }
        }
        lemma_sorted_unique_one(a0, b0);
        assert(b =~= b0.push(top));
    }
}

/// The number of texts at the start of `r` that come before `x`.
spec fn rank(r: Seq<Seq<char>>, x: Seq<char>) -> nat
    decreases r.len(),
{
    if r.len() > 0 && lex_less(r[0], x) {
        1 + rank(r.drop_first(), x)
    } else {
        0
    }
}

/// The texts before the rank of `x` come before `x`, the others do not.
proof fn lemma_rank(r: Seq<Seq<char>>, x: Seq<char>)
    requires
        strictly_sorted(r),
    ensures
        rank(r, x) <= r.len(),
        forall|i: int| 0 <= i < rank(r, x) ==> lex_less(#[trigger] r[i], x),
        forall|i: int| rank(r, x) <= i < r.len() ==> !lex_less(#[trigger] r[i], x),
    decreases r.len(),
{
    if r.len() > 0 {
        let rest = r.drop_first();
        assert forall|i: int, j: int| 0 <= i < j < rest.len() implies lex_less(
            #[trigger] rest[i],
            #[trigger] rest[j],
        ) by {
            assert(lex_less(r[i + 1], r[j + 1]));
        }
        if lex_less(r[0], x) {
            lemma_rank(rest, x);
            assert forall|i: int| 0 <= i < rank(r, x) implies lex_less(#[trigger] r[i], x) by {
                if i > 0 {
                    assert(r[i] == rest[i - 1]);
                }
            }
            assert forall|i: int| rank(r, x) <= i < r.len() implies !lex_less(
                #[trigger] r[i],
                x,
            ) by {
                assert(r[i] == rest[i - 1]);
            }
        } else {
            assert forall|i: int| 0 <= i < r.len() implies !lex_less(#[trigger] r[i], x) by {
                if i > 0 && lex_less(r[i], x) {
                    lemma_lex_transitive(r[0], r[i], x);
                }
            }
        }
    }
}

/// A list in strict order stays so when a text that it lacks is put where
/// all before it are smaller and all behind it greater.
pub proof fn lemma_insert_keeps_order(r: Seq<Seq<char>>, at: int, x: Seq<char>)
    requires
        strictly_sorted(r),
        0 <= at <= r.len(),
        forall|i: int| 0 <= i < at ==> lex_less(#[trigger] r[i], x),
        forall|i: int| at <= i < r.len() ==> lex_less(x, #[trigger] r[i]),
    ensures
        strictly_sorted(r.insert(at, x)),
        forall|y: Seq<char>| r.insert(at, x).contains(y) <==> r.contains(y) || y == x,
{
    let after = r.insert(at, x);
    assert forall|i: int, j: int| 0 <= i < j < after.len() implies lex_less(
        #[trigger] after[i],
        #[trigger] after[j],
    ) by {
        if j < at {
            assert(lex_less(r[i], r[j]));
        } else if j == at {
            assert(after[i] == r[i]);
        } else if i < at {
            assert(lex_less(r[i], r[j - 1]));
        } else if i == at {
            assert(after[j] == r[j - 1]);
        } else {
            assert(lex_less(r[i - 1], r[j - 1]));
        }
    }
    assert forall|y: Seq<char>| after.contains(y) <==> r.contains(y) || y == x by {
        if r.contains(y) {
            let i = choose|i: int| 0 <= i < r.len() && r[i] == y;
            assert(after[if i < at { i } else { i + 1 }] == y);
        }
        if y == x {
            assert(after[at] == y);
        }
        if after.contains(y) {
            let i = choose|i: int| 0 <= i < after.len() && after[i] == y;
            if i < at {
                assert(r[i] == y);
            } else if i > at {
                assert(r[i - 1] == y);
            }
        }
    }
}

/// Every list has its sorted list without repeats.
pub proof fn lemma_sorted_unique(s: Seq<Seq<char>>)
    ensures
        is_sorted_unique_of(sorted_unique(s), s),
    decreases s.len(),
{
    if s.len() == 0 {
        let r = Seq::<Seq<char>>::empty();
        assert(is_sorted_unique_of(r, s));
    } else {
        let init = s.drop_last();
        let x = s.last();
        lemma_sorted_unique(init);
        let r0 = sorted_unique(init);
        assert forall|y: Seq<char>| s.contains(y) <==> init.contains(y) || y == x by {
            if init.contains(y) {
                let i = choose|i: int| 0 <= i < init.len() && init[i] == y;
                assert(s[i] == y);
            }
            if y == x {
                assert(s[s.len() - 1] == y);
            }
            if s.contains(y) {
                let i = choose|i: int| 0 <= i < s.len() && s[i] == y;
                if i < s.len() - 1 {
                    assert(init[i] == y);
                }
            }
        }
        if r0.contains(x) {
            assert(is_sorted_unique_of(r0, s));
        } else {
            lemma_rank(r0, x);
            let at = rank(r0, x) as int;
            assert forall|i: int| at <= i < r0.len() implies lex_less(x, #[trigger] r0[i]) by {
                lemma_lex_connected(r0[i], x);
            }
            lemma_insert_keeps_order(r0, at, x);
            assert(is_sorted_unique_of(r0.insert(at, x), s));
        }
    }
}

/// Where `key` stands in the sorted list `list`: whether it is there, and
/// the position where it is or where it would have to go.
pub fn locate(list: &Vec<String>, key: &str) -> (r: (bool, usize))
    requires
        strictly_sorted(list.deep_view()),
    ensures
        r.1 <= list.len(),
        r.0 ==> r.1 < list.len() && list[r.1 as int]@ == key@,
        !r.0 ==> !list.deep_view().contains(key@),
        forall|i: int| 0 <= i < r.1 ==> lex_less(#[trigger] list[i]@, key@),
        forall|i: int|
            r.1 <= i < list.len() && !(r.0 && i == r.1) ==> lex_less(key@, #[trigger] list[i]@),
{
    let ghost keys = list.deep_view();
    let mut lo: usize = 0;
    let mut hi: usize = list.len();
    while lo < hi
        invariant
            lo <= hi <= list.len(),
            keys == list.deep_view(),
            strictly_sorted(keys),
            forall|i: int| 0 <= i < lo ==> lex_less(#[trigger] list[i]@, key@),
            forall|i: int| hi <= i < list.len() ==> lex_less(key@, #[trigger] list[i]@),
        decreases hi - lo,
    {
        let mid: usize = lo + (hi - lo) / 2;
        match str_order(list[mid].as_str(), key) {
            Order::Same => {
                assert forall|i: int| 0 <= i < mid implies lex_less(#[trigger] list[i]@, key@) by {
                    assert(lex_less(keys[i], keys[mid as int]));
                }
                assert forall|i: int| mid < i < list.len() implies lex_less(
                    key@,
                    #[trigger] list[i]@,
                ) by {
                    assert(lex_less(keys[mid as int], keys[i]));
                }
                return (true, mid);
            },
            Order::Before => {
                assert forall|i: int| 0 <= i < mid + 1 implies lex_less(
                    #[trigger] list[i]@,
                    key@,
                ) by {
                    if i < mid {
                        lemma_lex_transitive(keys[i], keys[mid as int], key@);
                    }
                }
                lo = mid + 1;
            },
            Order::After => {
                assert forall|i: int| mid <= i < list.len() implies lex_less(
                    key@,
                    #[trigger] list[i]@,
                ) by {
                    if mid < i {
                        lemma_lex_transitive(key@, keys[mid as int], keys[i]);
                    }
                }
                hi = mid;
            },
        }
    }
    assert forall|i: int| 0 <= i < keys.len() implies keys[i] != key@ by {
        lemma_lex_irreflexive(key@);
        if i < lo {
            assert(lex_less(list[i]@, key@));
        } else {
            assert(lex_less(key@, list[i]@));
        }
    }
    (false, lo)
}

/// Puts `item` into the sorted list `list`, unless it is there already.
pub fn insert_sorted(list: &mut Vec<String>, item: String)
    requires
        strictly_sorted(old(list).deep_view()),
    ensures
        strictly_sorted(final(list).deep_view()),
        forall|x: Seq<char>|
            final(list).deep_view().contains(x) <==> old(list).deep_view().contains(x) || x
                == item@,
{
    let ghost before = list.deep_view();
    let (found, at) = locate(list, item.as_str());
    if found {
        assert(before[at as int] == item@);
    } else {
        list.insert(at, item);
        proof {
            assert(list.deep_view() =~= before.insert(at as int, item@));
            assert forall|i: int| 0 <= i < at implies lex_less(#[trigger] before[i], item@) by {
                assert(before[i] == old(list)[i]@);
            }
            assert forall|i: int| at <= i < before.len() implies lex_less(
                item@,
                #[trigger] before[i],
            ) by {
                assert(before[i] == old(list)[i]@);
            }
            lemma_insert_keeps_order(before, at as int, item@);
        }
    }
}

/// The texts of `v` in ascending order, each once.
pub fn sort_dedup(v: Vec<String>) -> (r: Vec<String>)
    ensures
        r.deep_view() == sorted_unique(v.deep_view()),
        is_sorted_unique_of(r.deep_view(), v.deep_view()),
{
    let mut out: Vec<String> = Vec::new();
    let ghost all = v.deep_view();
    for item in it: v
        invariant
            all == v.deep_view(),
            strictly_sorted(out.deep_view()),
            forall|x: Seq<char>|
                out.deep_view().contains(x) <==> all.take(it.index() as int).contains(x),
    {
        let ghost n = it.index() as int;
        assert forall|x: Seq<char>| all.take(n + 1).contains(x) <==> all.take(n).contains(x) || x
            == item@ by {
            if all.take(n).contains(x) {
                let i = choose|i: int| 0 <= i < n && all.take(n)[i] == x;
                assert(all.take(n + 1)[i] == x);
            }
            if x == item@ {
                assert(all.take(n + 1)[n] == x);
            }
        }
        insert_sorted(&mut out, item);
    }
    proof {
        assert(all.take(all.len() as int) == all);
        lemma_sorted_unique(all);
        lemma_sorted_unique_one(out.deep_view(), sorted_unique(all));
    }
    out
}

} // verus!
