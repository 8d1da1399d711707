//! Character-level text operations: whitespace normalisation, trimming,
//! searching and case folding, each with its meaning as a function on
//! sequences of characters.

use vstd::prelude::*;

verus! {

/// `String::push` appends one character.
pub assume_specification[ String::push ](s: &mut String, c: char)
    ensures
        final(s)@ == old(s)@.push(c),
;

/// The characters of `s`, in order.
pub fn chars_of(s: &str) -> (r: Vec<char>)
    ensures
        r@ == s@,
{
    let mut out: Vec<char> = Vec::new();
    let chars = s.chars();
    for c in it: chars
        invariant
            out@ == it.seq().take(it.index() as int),
            it.seq() == s@,
    {
        out.push(c);
    }
    out
}

/// The string whose characters are `v[from..to]`, in order.
pub fn string_of_range(v: &Vec<char>, from: usize, to: usize) -> (r: String)
    requires
        from <= to <= v.len(),
    ensures
        r@ == v@.subrange(from as int, to as int),
{
    let mut out = String::new();
    let mut i: usize = from;
    while i < to
        invariant
            from <= i <= to <= v.len(),
            out@ == v@.subrange(from as int, i as int),
        decreases to - i,
    {
        out.push(v[i]);
        i += 1;
    }
    out
}

/// The string whose characters are `v`, in order.
pub fn string_of(v: &Vec<char>) -> (r: String)
    ensures
        r@ == v@,
{
    string_of_range(v, 0, v.len())
}

/// The code points with the Unicode property `White_Space`.
pub open spec fn whitespace(c: char) -> bool {
    let u = c as u32;
    ||| 0x09 <= u <= 0x0D
    ||| u == 0x20
    ||| u == 0x85
    ||| u == 0xA0
    ||| u == 0x1680
    ||| 0x2000 <= u <= 0x200A
    ||| u == 0x2028
    ||| u == 0x2029
    ||| u == 0x202F
    ||| u == 0x205F
    ||| u == 0x3000
}

/// Whether `c` has the Unicode property `White_Space`.
pub fn is_whitespace(c: char) -> (b: bool)
    ensures
        b == whitespace(c),
{
    let u: u32 = c as u32;
    (0x09 <= u && u <= 0x0D) || u == 0x20 || u == 0x85 || u == 0xA0 || u == 0x1680 || (0x2000 <= u
        && u <= 0x200A) || u == 0x2028 || u == 0x2029 || u == 0x202F || u == 0x205F || u == 0x3000
}

/// No character of `s` is whitespace.
pub open spec fn no_whitespace(s: Seq<char>) -> bool {
    forall|i: int| 0 <= i < s.len() ==> !whitespace(#[trigger] s[i])
}

/// The length of the longest prefix of `s` that holds no whitespace.
pub open spec fn word_len(s: Seq<char>) -> nat
    decreases s.len(),
{
    if s.len() == 0 || whitespace(s[0]) {
        0
    } else {
        1 + word_len(s.drop_first())
    }
}

/// The longest whitespace-free prefix of `s` ends at the end of `s` or
/// before a whitespace character.
pub proof fn lemma_word_len(s: Seq<char>)
    ensures
        word_len(s) <= s.len(),
        no_whitespace(s.take(word_len(s) as int)),
        word_len(s) < s.len() ==> whitespace(s[word_len(s) as int]),
        s.len() > 0 && !whitespace(s[0]) ==> word_len(s) >= 1,
    decreases s.len(),
{
    if s.len() > 0 && !whitespace(s[0]) {
        let t = s.drop_first();
        lemma_word_len(t);
        let n = word_len(s) as int;
        assert forall|i: int| 0 <= i < n implies !whitespace(#[trigger] s.take(n)[i]) by {
            if i > 0 {
                assert(s.take(n)[i] == t.take(n - 1)[i - 1]);
            }
        }
    }
}

/// The maximal whitespace-free runs of `s`, in order.
pub open spec fn words(s: Seq<char>) -> Seq<Seq<char>>
    decreases s.len(),
{
    if s.len() == 0 {
        Seq::empty()
    } else if whitespace(s[0]) {
        words(s.drop_first())
    } else {
        proof {
            lemma_word_len(s);
        }
        let n = word_len(s) as int;
        seq![s.take(n)] + words(s.skip(n))
    }
}

/// The words of `ws`, with one space between neighbours.
pub open spec fn join_words(ws: Seq<Seq<char>>) -> Seq<char>
    decreases ws.len(),
{
    if ws.len() == 0 {
        Seq::empty()
    } else if ws.len() == 1 {
        ws[0]
    } else {
        ws[0] + seq![' '] + join_words(ws.drop_first())
    }
}

/// `s` with every whitespace run replaced by one space, and none at either end.
pub open spec fn normalize(s: Seq<char>) -> Seq<char> {
    join_words(words(s))
}

/// Joining one more word puts a space and the word behind what was joined.
pub proof fn lemma_join_push(ws: Seq<Seq<char>>, w: Seq<char>)
    ensures
        join_words(ws.push(w)) == if ws.len() == 0 {
            w
        } else {
            join_words(ws) + seq![' '] + w
        },
    decreases ws.len(),
{
    if ws.len() > 0 {
        let rest = ws.drop_first();
        lemma_join_push(rest, w);
        assert(ws.push(w).drop_first() == rest.push(w));
    }
}

/// Splits `s` at whitespace runs; empty pieces are dropped.
pub fn split_words(s: &Vec<char>) -> (r: Vec<Vec<char>>)
    ensures
        r.deep_view() == words(s@),
{
    let mut out: Vec<Vec<char>> = Vec::new();
    let mut i: usize = 0;
    assert(s@.skip(0) == s@);
    while i < s.len()
        invariant
            i <= s.len(),
            words(s@) == out.deep_view() + words(s@.skip(i as int)),
        decreases s.len() - i,
    {
        if is_whitespace(s[i]) {
            assert(s@.skip(i as int).drop_first() == s@.skip(i + 1));
            i += 1;
        } else {
            let start = i;
            let mut word: Vec<char> = Vec::new();
            while i < s.len() && !is_whitespace(s[i])
                invariant
                    start <= i <= s.len(),
                    word@ == s@.subrange(start as int, i as int),
                    word_len(s@.skip(start as int)) == (i - start) + word_len(s@.skip(i as int)),
                decreases s.len() - i,
            {
                assert(s@.skip(i as int).drop_first() == s@.skip(i + 1));
                word.push(s[i]);
                i += 1;
            }
            proof {
                let tail = s@.skip(start as int);
                assert(tail.take(i - start) == word@);
                assert(tail.skip(i - start) == s@.skip(i as int));
                assert(word.deep_view() =~= word@);
            }
            out.push(word);
        }
    }
    out
}

/// Joins `ws` with one space between neighbours.
pub fn join_with_space(ws: &Vec<Vec<char>>) -> (r: Vec<char>)
    ensures
        r@ == join_words(ws.deep_view()),
{
    let mut out: Vec<char> = Vec::new();
    let mut i: usize = 0;
    while i < ws.len()
        invariant
            i <= ws.len(),
            out@ == join_words(ws.deep_view().take(i as int)),
        decreases ws.len() - i,
    {
        if i > 0 {
            out.push(' ');
        }
        let w = &ws[i];
        let ghost sep = out@;
        let mut j: usize = 0;
        while j < w.len()
            invariant
                j <= w.len(),
                out@ == sep + w@.take(j as int),
            decreases w.len() - j,
        {
            out.push(w[j]);
            j += 1;
        }
        proof {
            let done = ws.deep_view().take(i as int);
            assert(ws.deep_view()[i as int] =~= w@);
            assert(ws.deep_view().take(i + 1) =~= done.push(w@));
            lemma_join_push(done, w@);
        }
        i += 1;
    }
    assert(ws.deep_view().take(i as int) == ws.deep_view());
    out
}

/// Collapses every whitespace run of `s` to one space and trims both ends.
pub fn normalize_ws(s: &str) -> (r: String)
    ensures
        r@ == normalize(s@),
{
    let chars = chars_of(s);
    let ws = split_words(&chars);
    let joined = join_with_space(&ws);
    string_of(&joined)
}

/// The texts of `parts` joined by single spaces, then normalised.
pub open spec fn flat_text(parts: Seq<Seq<char>>) -> Seq<char> {
    normalize(join_words(parts))
}

/// Joins the texts of `parts` by single spaces and normalises the result.
pub fn flatten(parts: &Vec<String>) -> (r: String)
    ensures
        r@ == flat_text(parts.deep_view()),
{
    let mut rows: Vec<Vec<char>> = Vec::new();
    let mut i: usize = 0;
    while i < parts.len()
        invariant
            i <= parts.len(),
            rows.deep_view() == parts.deep_view().take(i as int),
        decreases parts.len() - i,
    {
        let ghost before = rows.deep_view();
        let row = chars_of(parts[i].as_str());
        assert(row.deep_view() =~= row@);
        rows.push(row);
        assert(rows.deep_view() =~= before.push(row@));
        assert(parts.deep_view().take(i + 1) =~= before.push(parts[i as int]@));
        i += 1;
    }
    assert(parts.deep_view().take(i as int) == parts.deep_view());
    let joined = join_with_space(&rows);
    let ws = split_words(&joined);
    let normal = join_with_space(&ws);
    string_of(&normal)
}

/// Every word of `ws` is non-empty and free of whitespace.
pub open spec fn proper_words(ws: Seq<Seq<char>>) -> bool {
    forall|k: int| 0 <= k < ws.len() ==> (#[trigger] ws[k]).len() > 0 && no_whitespace(ws[k])
}

/// Every whitespace character of `s` is a single space that stands between
/// two characters that are not whitespace.
pub open spec fn single_spaced(s: Seq<char>) -> bool {
    forall|i: int|
        0 <= i < s.len() && whitespace(#[trigger] s[i]) ==> {
            &&& s[i] == ' '
            &&& 0 < i < s.len() - 1
            &&& !whitespace(s[i - 1])
            &&& !whitespace(s[i + 1])
        }
}

/// Every word of a text is non-empty and free of whitespace.
pub proof fn lemma_words_proper(s: Seq<char>)
    ensures
        proper_words(words(s)),
    decreases s.len(),
{
    if s.len() > 0 {
        if whitespace(s[0]) {
            lemma_words_proper(s.drop_first());
        } else {
            lemma_word_len(s);
            lemma_words_proper(s.skip(word_len(s) as int));
        }
    }
}

/// A whitespace-free text is the longest whitespace-free prefix of itself
/// followed by whitespace.
proof fn lemma_word_len_concat(a: Seq<char>, b: Seq<char>)
    requires
        no_whitespace(a),
        b.len() == 0 || whitespace(b[0]),
    ensures
        word_len(a + b) == a.len(),
    decreases a.len(),
{
    if a.len() > 0 {
        let rest = a.drop_first();
        assert(no_whitespace(rest));
        lemma_word_len_concat(rest, b);
        assert((a + b).drop_first() =~= rest + b);
    }
}

/// Joined words start and end without whitespace, and hold no whitespace
/// but single spaces between the words.
proof fn lemma_join_shape(ws: Seq<Seq<char>>)
    requires
        proper_words(ws),
        ws.len() > 0,
    ensures
        join_words(ws).len() > 0,
        !whitespace(join_words(ws).first()),
        !whitespace(join_words(ws).last()),
        single_spaced(join_words(ws)),
    decreases ws.len(),
{
    if ws.len() > 1 {
        let rest = ws.drop_first();
        assert(proper_words(rest));
        lemma_join_shape(rest);
    }
}

/// The words of joined words are those words.
proof fn lemma_words_of_join(ws: Seq<Seq<char>>)
    requires
        proper_words(ws),
    ensures
        words(join_words(ws)) == ws,
    decreases ws.len(),
{
    if ws.len() > 0 {
        let w = ws[0];
        if ws.len() == 1 {
            lemma_word_len_concat(w, Seq::<char>::empty());
            assert(w.take(w.len() as int) == w);
            assert(words(w) == seq![w.take(w.len() as int)] + words(w.skip(w.len() as int)));
        } else {
            let rest = ws.drop_first();
            assert(proper_words(rest));
            lemma_words_of_join(rest);
            let tail = seq![' '] + join_words(rest);
            let j = join_words(ws);
            assert(j =~= w + tail);
            lemma_word_len_concat(w, tail);
            assert(j.take(w.len() as int) =~= w);
            assert(j.skip(w.len() as int) =~= tail);
            assert(tail.drop_first() =~= join_words(rest));
            assert(words(tail) == rest);
        }
    }
}

/// Normalising twice gives what normalising once gives.
pub proof fn lemma_normalize_idempotent(s: Seq<char>)
    ensures
        normalize(normalize(s)) == normalize(s),
{
    lemma_words_proper(s);
    lemma_words_of_join(words(s));
}

/// A normalised text has no whitespace at either end, and no whitespace
/// inside it but single spaces.
pub proof fn lemma_normalize_single_spaced(s: Seq<char>)
    ensures
        single_spaced(normalize(s)),
        normalize(s).len() > 0 ==> !whitespace(normalize(s).first()) && !whitespace(
            normalize(s).last(),
        ),
{
    lemma_words_proper(s);
    if words(s).len() > 0 {
        lemma_join_shape(words(s));
    }
}

/// The number of whitespace characters at the start of `s`.
pub open spec fn leading_whitespace(s: Seq<char>) -> nat
    decreases s.len(),
{
    if s.len() > 0 && whitespace(s[0]) {
        1 + leading_whitespace(s.drop_first())
    } else {
        0
    }
}

/// The number of whitespace characters at the end of `s`.
pub open spec fn trailing_whitespace(s: Seq<char>) -> nat
    decreases s.len(),
{
    if s.len() > 0 && whitespace(s.last()) {
        1 + trailing_whitespace(s.drop_last())
    } else {
        0
    }
}

/// A text has no more whitespace at either end than it has characters.
pub proof fn lemma_whitespace_counts(s: Seq<char>)
    ensures
        leading_whitespace(s) <= s.len(),
        trailing_whitespace(s) <= s.len(),
    decreases s.len(),
{
    if s.len() > 0 {
        lemma_whitespace_counts(s.drop_first());
        lemma_whitespace_counts(s.drop_last());
    }
}

/// `s` without the whitespace at its start.
pub open spec fn trim_start(s: Seq<char>) -> Seq<char> {
    s.skip(leading_whitespace(s) as int)
}

/// `s` without the whitespace at its end.
pub open spec fn trim_end(s: Seq<char>) -> Seq<char> {
    s.take(s.len() - trailing_whitespace(s))
}

/// `s` without the whitespace at either end.
pub open spec fn trim(s: Seq<char>) -> Seq<char> {
    trim_end(trim_start(s))
}

/// The bounds of `trim(v[from..to])` within `v`.
pub fn trim_range(v: &Vec<char>, from: usize, to: usize) -> (r: (usize, usize))
    requires
        from <= to <= v.len(),
    ensures
        from <= r.0 <= r.1 <= to,
        v@.subrange(r.0 as int, r.1 as int) == trim(v@.subrange(from as int, to as int)),
{
    let ghost whole = v@.subrange(from as int, to as int);
    let mut a: usize = from;
    while a < to && is_whitespace(v[a])
        invariant
            from <= a <= to <= v.len(),
            leading_whitespace(whole) == (a - from) + leading_whitespace(
                v@.subrange(a as int, to as int),
            ),
            whole == v@.subrange(from as int, to as int),
        decreases to - a,
    {
        assert(v@.subrange(a as int, to as int).drop_first() == v@.subrange(a + 1, to as int));
        a += 1;
    }
    let ghost left = v@.subrange(a as int, to as int);
    assert(trim_start(whole) == left);
    let mut b: usize = to;
    while b > a && is_whitespace(v[b - 1])
        invariant
            a <= b <= to <= v.len(),
            left == v@.subrange(a as int, to as int),
            trailing_whitespace(left) == (to - b) + trailing_whitespace(
                v@.subrange(a as int, b as int),
            ),
        decreases b - a,
    {
        assert(v@.subrange(a as int, b as int).drop_last() == v@.subrange(a as int, b - 1));
        b -= 1;
    }
    (a, b)
}

/// The lower-case form of an ASCII capital letter; any other character unchanged.
pub open spec fn ascii_lower(c: char) -> char {
    if 'A' <= c <= 'Z' {
        ((c as u8) + 32) as char
    } else {
        c
    }
}

/// `s` with every ASCII capital letter in lower case.
pub open spec fn ascii_lowercase(s: Seq<char>) -> Seq<char> {
    s.map_values(|c: char| ascii_lower(c))
}

/// The lower-case form of `c` if it is an ASCII capital letter, else `c`.
pub fn to_ascii_lower(c: char) -> (r: char)
    ensures
        r == ascii_lower(c),
{
    let u: u32 = c as u32;
    if 0x41 <= u && u <= 0x5A {
        let b: u8 = c as u8;
        (b + 32) as char
    } else {
        c
    }
}

/// A copy of `v` with every ASCII capital letter in lower case.
pub fn to_ascii_lowercase(v: &Vec<char>) -> (r: Vec<char>)
    ensures
        r@ == ascii_lowercase(v@),
{
    let mut out: Vec<char> = Vec::new();
    let mut i: usize = 0;
    while i < v.len()
        invariant
            i <= v.len(),
            out@ == ascii_lowercase(v@.take(i as int)),
        decreases v.len() - i,
    {
        out.push(to_ascii_lower(v[i]));
        i += 1;
    }
    out
}

/// `needle` stands in `text` at position `i`.
pub open spec fn occurs_at(text: Seq<char>, needle: Seq<char>, i: int) -> bool {
    &&& 0 <= i
    &&& i + needle.len() <= text.len()
    &&& text.subrange(i, i + needle.len()) == needle
}

/// `needle` stands somewhere in `text`.
pub open spec fn contains(text: Seq<char>, needle: Seq<char>) -> bool {
    exists|i: int| occurs_at(text, needle, i)
}

/// The first position at or after `from` where `needle` stands in `text`.
pub open spec fn find_from(text: Seq<char>, needle: Seq<char>, from: int) -> Option<int>
    decreases text.len() + 1 - from,
{
    if from < 0 || from + needle.len() > text.len() {
        None
    } else if occurs_at(text, needle, from) {
        Some(from)
    } else {
        find_from(text, needle, from + 1)
    }
}

/// What is found is an occurrence at or after `from`, and the first such;
/// where nothing is found there is none.
pub proof fn lemma_find_from(text: Seq<char>, needle: Seq<char>, from: int)
    requires
        0 <= from,
    ensures
        match find_from(text, needle, from) {
            Some(p) => {
                &&& from <= p
                &&& occurs_at(text, needle, p)
                &&& forall|j: int| from <= j < p ==> !occurs_at(text, needle, j)
            },
            None => forall|j: int| from <= j ==> !occurs_at(text, needle, j),
        },
    decreases text.len() + 1 - from,
{
    if from + needle.len() <= text.len() && !occurs_at(text, needle, from) {
        lemma_find_from(text, needle, from + 1);
    }
}

/// A text holds what is found in it from its start, and nothing else.
pub proof fn lemma_contains_find(text: Seq<char>, needle: Seq<char>)
    ensures
        contains(text, needle) <==> find_from(text, needle, 0) is Some,
{
    lemma_find_from(text, needle, 0);
}

/// Whether `needle` stands in `text` at position `i`.
pub fn matches_at(text: &Vec<char>, needle: &Vec<char>, i: usize) -> (b: bool)
    requires
        i + needle.len() <= text.len(),
    ensures
        b == occurs_at(text@, needle@, i as int),
{
    let mut k: usize = 0;
    while k < needle.len()
        invariant
            k <= needle.len(),
            i + needle.len() <= text.len(),
            text@.subrange(i as int, i + k) == needle@.take(k as int),
        decreases needle.len() - k,
    {
        if text[i + k] != needle[k] {
            return false;
        }
        k += 1;
    }
    assert(needle@.take(k as int) == needle@);
    true
}

/// The first position at or after `from` where `needle` stands in `text`.
pub fn find_in(text: &Vec<char>, needle: &Vec<char>, from: usize) -> (r: Option<usize>)
    ensures
        match r {
            Some(p) => find_from(text@, needle@, from as int) == Some(p as int),
            None => find_from(text@, needle@, from as int) is None,
        },
{
    if needle.len() > text.len() || from > text.len() - needle.len() {
        return None;
    }
    let last: usize = text.len() - needle.len();
    let mut i: usize = from;
    loop
        invariant
            from <= i <= last,
            last == text.len() - needle.len(),
            find_from(text@, needle@, from as int) == find_from(text@, needle@, i as int),
        decreases last - i,
    {
        if matches_at(text, needle, i) {
            return Some(i);
        }
        if i == last {
            assert(find_from(text@, needle@, i + 1) is None);
            return None;
        }
        i += 1;
    }
}

/// Whether `needle` stands somewhere in `text`.
pub fn contains_chars(text: &Vec<char>, needle: &Vec<char>) -> (b: bool)
    ensures
        b == contains(text@, needle@),
{
    proof {
        lemma_contains_find(text@, needle@);
    }
    find_in(text, needle, 0).is_some()
}

/// Whether `needle` stands somewhere in `text`.
pub fn str_contains(text: &str, needle: &str) -> (b: bool)
    ensures
        b == contains(text@, needle@),
{
    let t = chars_of(text);
    let n = chars_of(needle);
    contains_chars(&t, &n)
}

/// `prefix` stands at the start of `text`.
pub open spec fn starts_with(text: Seq<char>, prefix: Seq<char>) -> bool {
    occurs_at(text, prefix, 0)
}

/// Whether `prefix` stands at the start of `text`.
pub fn has_prefix(text: &Vec<char>, prefix: &Vec<char>) -> (b: bool)
    ensures
        b == starts_with(text@, prefix@),
{
    if prefix.len() > text.len() {
        false
    } else {
        matches_at(text, prefix, 0)
    }
}

/// `s` without the whitespace at either end.
pub fn trim_str(s: &str) -> (r: String)
    ensures
        r@ == trim(s@),
{
    let chars = chars_of(s);
    assert(chars@.subrange(0, chars.len() as int) == chars@);
    let (a, b) = trim_range(&chars, 0, chars.len());
    string_of_range(&chars, a, b)
}

/// The characters of `s`, each ASCII capital letter in lower case.
pub fn lowercase_chars(s: &str) -> (r: Vec<char>)
    ensures
        r@ == ascii_lowercase(s@),
{
    let chars = chars_of(s);
    to_ascii_lowercase(&chars)
}

/// Whether `needle`, as it is written, stands somewhere in `text`.
pub fn contains_literal(text: &Vec<char>, needle: &str) -> (b: bool)
    ensures
        b == contains(text@, needle@),
{
    let n = chars_of(needle);
    contains_chars(text, &n)
}

/// Whether `prefix`, as it is written, stands at the start of `text`.
pub fn starts_with_literal(text: &Vec<char>, prefix: &str) -> (b: bool)
    ensures
        b == starts_with(text@, prefix@),
{
    let p = chars_of(prefix);
    has_prefix(text, &p)
}

} // verus!
