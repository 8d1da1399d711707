//! Label-delimited segmentation of flat text: the value that follows a
//! label, up to the nearest of the labels that may follow it.

use crate::text::{
    chars_of, contains, find_from, find_in, leading_whitespace, lemma_find_from,
    lemma_whitespace_counts, occurs_at, string_of_range, trim, trim_range, trim_start,
};
use vstd::prelude::*;

verus! {

/// The smallest position at or after `start` where one of `nexts` stands in
/// `text`; the length of `text` if none does.
pub open spec fn nearest_label(text: Seq<char>, nexts: Seq<Seq<char>>, start: int) -> int
    decreases nexts.len(),
{
    if nexts.len() == 0 {
        text.len() as int
    } else {
        let rest = nearest_label(text, nexts.drop_last(), start);
        match find_from(text, nexts.last(), start) {
            Some(p) => if p < rest {
                p
            } else {
                rest
            },
            None => rest,
        }
    }
}

/// Where the value of `label` starts and ends in `text`: from just behind the
/// first occurrence of `label` to the nearest following label.
pub open spec fn segment_bounds(text: Seq<char>, label: Seq<char>, nexts: Seq<Seq<char>>) -> Option<
    (int, int),
> {
    match find_from(text, label, 0) {
        None => None,
        Some(p) => Some((p + label.len(), nearest_label(text, nexts, p + label.len()))),
    }
}

/// The trimmed text between `label` and the nearest of `nexts`; nothing if
/// `label` does not occur or the text between is blank.
pub open spec fn segment(text: Seq<char>, label: Seq<char>, nexts: Seq<Seq<char>>) -> Option<
    Seq<char>,
> {
    match segment_bounds(text, label, nexts) {
        None => None,
        Some((start, end)) => {
            let value = trim(text.subrange(start, end));
            if value.len() == 0 {
                None
            } else {
                Some(value)
            }
        },
    }
}

/// The nearest label lies between `start` and the end of the text, and no
/// label of `nexts` starts between `start` and it.
pub proof fn lemma_nearest_label(text: Seq<char>, nexts: Seq<Seq<char>>, start: int)
    requires
        0 <= start <= text.len(),
    ensures
        start <= nearest_label(text, nexts, start) <= text.len(),
        forall|k: int, j: int|
            0 <= k < nexts.len() && start <= j < nearest_label(text, nexts, start)
                ==> !#[trigger] occurs_at(text, nexts[k], j),
    decreases nexts.len(),
{
    if nexts.len() > 0 {
        let init = nexts.drop_last();
        lemma_nearest_label(text, init, start);
        lemma_find_from(text, nexts.last(), start);
        let end = nearest_label(text, nexts, start);
        assert forall|k: int, j: int|
            0 <= k < nexts.len() && start <= j < end implies !#[trigger] occurs_at(
            text,
            nexts[k],
            j,
        ) by {
            if k < init.len() {
                assert(nexts[k] == init[k]);
            }
        }
    }
}

/// A value is returned only where the label occurs. No following label
/// starts between the label and the end that was computed, and the value
/// holds none of them.
pub proof fn lemma_segment_bounded(text: Seq<char>, label: Seq<char>, nexts: Seq<Seq<char>>)
    ensures
        segment(text, label, nexts) is Some ==> contains(text, label),
        match segment_bounds(text, label, nexts) {
            Some((start, end)) => {
                &&& 0 <= start <= end <= text.len()
                &&& forall|k: int, j: int|
                    0 <= k < nexts.len() && start <= j < end ==> !#[trigger] occurs_at(
                        text,
                        nexts[k],
                        j,
                    )
            },
            None => true,
        },
        forall|k: int|
            0 <= k < nexts.len() && segment(text, label, nexts) is Some ==> !contains(
                segment(text, label, nexts)->0,
                #[trigger] nexts[k],
            ),
{
    lemma_find_from(text, label, 0);
    match segment_bounds(text, label, nexts) {
        None => {},
        Some((start, end)) => {
            lemma_nearest_label(text, nexts, start);
            let between = text.subrange(start, end);
            let value = trim(between);
            lemma_whitespace_counts(between);
            lemma_whitespace_counts(trim_start(between));
            let lead = leading_whitespace(between) as int;
            assert forall|k: int| 0 <= k < nexts.len() && value.len() > 0 implies !contains(
                value,
                #[trigger] nexts[k],
            ) by {
                let n = nexts[k];
                if contains(value, n) {
                    let i = choose|i: int| occurs_at(value, n, i);
                    let j = start + lead + i;
                    assert(text.subrange(j, j + n.len()) =~= value.subrange(i, i + n.len()));
                    assert(occurs_at(text, n, j));
                    if n.len() == 0 {
                        lemma_find_from(text, n, start);
                        assert(text.subrange(start, start + 0) =~= n);
                    }
                }
            }
        },
    }
}

/// The trimmed text that follows `label` in `text`, up to the nearest of
/// `next_labels`.
pub fn capture_between_labels(text: &str, label: &str, next_labels: &[&str]) -> (r: Option<String>)
    ensures
        r.deep_view() == segment(text@, label@, next_labels.deep_view()),
{
    let t = chars_of(text);
    let l = chars_of(label);
    let p: usize = match find_in(&t, &l, 0) {
        None => {
            return None;
        },
        Some(p) => p,
    };
    proof {
        lemma_find_from(t@, l@, 0);
    }
    assert(p + l.len() <= t.len());
    let start: usize = p + l.len();
    let ghost nexts = next_labels.deep_view();
    let mut end: usize = t.len();
    let mut k: usize = 0;
    while k < next_labels.len()
        invariant
            k <= next_labels.len(),
            start <= end <= t.len(),
            nexts == next_labels.deep_view(),
            end == nearest_label(t@, nexts.take(k as int), start as int),
        decreases next_labels.len() - k,
    {
        let n = chars_of(next_labels[k]);
        proof {
            assert(nexts.take(k + 1).drop_last() == nexts.take(k as int));
            lemma_find_from(t@, n@, start as int);
        }
        match find_in(&t, &n, start) {
            Some(p) => {
                if p < end {
                    end = p;
                }
            },
            None => {},
        }
        k += 1;
    }
    assert(nexts.take(k as int) == nexts);
    let (a, b) = trim_range(&t, start, end);
    if a == b {
        None
    } else {
        Some(string_of_range(&t, a, b))
    }
}

/// The number of characters of `s` before its first comma.
pub open spec fn piece_len(s: Seq<char>) -> nat
    decreases s.len(),
{
    if s.len() == 0 || s[0] == ',' {
        0
    } else {
        1 + piece_len(s.drop_first())
    }
}

/// The trimmed, non-empty pieces of `s` between commas, in order.
pub open spec fn comma_values(s: Seq<char>) -> Seq<Seq<char>>
    decreases s.len(),
{
    let n = piece_len(s) as int;
    let piece = trim(s.take(n));
    let here = if piece.len() > 0 {
        seq![piece]
    } else {
        Seq::empty()
    };
    if n < s.len() {
        here + comma_values(s.skip(n + 1))
    } else {
        here
    }
}

/// Splits `s` at commas, trims each piece and drops the empty ones.
pub fn split_csvish(s: &str) -> (r: Vec<String>)
    ensures
        r.deep_view() == comma_values(s@),
{
    let t = chars_of(s);
    let mut out: Vec<String> = Vec::new();
    let mut start: usize = 0;
    assert(t@.skip(0) == t@);
    loop
        invariant
            start <= t.len(),
            t@ == s@,
            comma_values(t@) == out.deep_view() + comma_values(t@.skip(start as int)),
        decreases t.len() - start,
    {
        let ghost tail = t@.skip(start as int);
        let mut i: usize = start;
        while i < t.len() && t[i] != ','
            invariant
                start <= i <= t.len(),
                piece_len(tail) == (i - start) + piece_len(t@.skip(i as int)),
                tail == t@.skip(start as int),
            decreases t.len() - i,
        {
            assert(t@.skip(i as int).drop_first() == t@.skip(i + 1));
            i += 1;
        }
        assert(tail.take(i - start) == t@.subrange(start as int, i as int));
        let (a, b) = trim_range(&t, start, i);
        if a < b {
            out.push(string_of_range(&t, a, b));
        }
        if i == t.len() {
            return out;
        }
        assert(tail.skip(i - start + 1) == t@.skip(i + 1));
        start = i + 1;
    }
}

} // verus!
