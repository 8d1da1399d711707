//! The rules that read single fields from matched elements.

use crate::dom::{document_matches, select_in_document, Element, ElementView};
use vstd::prelude::*;

verus! {

/// `s`, unless it is empty.
pub open spec fn non_empty(s: Seq<char>) -> Option<Seq<char>> {
    if s.len() == 0 {
        None
    } else {
        Some(s)
    }
}

/// The normalised text of the first element, unless it is empty.
pub open spec fn first_text(els: Seq<ElementView>) -> Option<Seq<char>> {
    if els.len() == 0 {
        None
    } else {
        non_empty(els[0].text())
    }
}

/// The texts of `texts` that are not empty, in order.
pub open spec fn non_empty_texts(texts: Seq<Seq<char>>) -> Seq<Seq<char>> {
    texts.filter(|t: Seq<char>| t.len() > 0)
}

/// The normalised text of each element, without the empty ones.
pub open spec fn all_texts(els: Seq<ElementView>) -> Seq<Seq<char>> {
    non_empty_texts(els.map_values(|e: ElementView| e.text()))
}

/// The `k`-th attribute asked for, as the first element has it.
pub open spec fn first_attr(els: Seq<ElementView>, k: int) -> Option<Seq<char>> {
    if els.len() == 0 {
        None
    } else {
        els[0].attr(k)
    }
}

/// The normalised text of the first of `els`, unless there is none or it is empty.
pub fn first_text_of(els: &Vec<Element>) -> (r: Option<String>)
    ensures
        r.deep_view() == first_text(els.deep_view()),
{
    if els.len() == 0 {
        None
    } else {
        let t = els[0].text();
        if t.as_str().is_empty() {
            None
        } else {
            Some(t)
        }
    }
}

/// The normalised texts of `els`, without the empty ones.
pub fn all_texts_of(els: &Vec<Element>) -> (r: Vec<String>)
    ensures
        r.deep_view() == all_texts(els.deep_view()),
{
    let ghost texts = els.deep_view().map_values(|e: ElementView| e.text());
    let mut out: Vec<String> = Vec::new();
    let mut i: usize = 0;
    proof {
        reveal(Seq::filter);
    }
    while i < els.len()
        invariant
            i <= els.len(),
            texts == els.deep_view().map_values(|e: ElementView| e.text()),
            out.deep_view() == non_empty_texts(texts.take(i as int)),
        decreases els.len() - i,
    {
        let t = els[i].text();
        proof {
            reveal(Seq::filter);
            assert(texts.take(i + 1).drop_last() == texts.take(i as int));
        }
        if !t.as_str().is_empty() {
            out.push(t);
        }
        i += 1;
    }
    assert(texts.take(i as int) == texts);
    out
}

/// The `k`-th attribute asked for, as the first of `els` has it.
pub fn first_attr_of(els: &Vec<Element>, k: usize) -> (r: Option<String>)
    ensures
        r.deep_view() == first_attr(els.deep_view(), k as int),
{
    if els.len() == 0 {
        None
    } else {
        match els[0].attr(k) {
            Some(v) => Some(v.clone()),
            None => None,
        }
    }
}

/// The normalised text of the first element of the document `html` that
/// `selector` matches.
pub fn select_text(html: &str, selector: &str) -> (r: Option<String>)
    ensures
        r.deep_view() == first_text(document_matches(html@, selector@, Seq::empty())),
{
    let none: [&str; 0] = [];
    let attrs: &[&str] = &none;
    assert(attrs.deep_view() =~= Seq::<Seq<char>>::empty());
    let els = select_in_document(html, selector, attrs);
    first_text_of(&els)
}

} // verus!
