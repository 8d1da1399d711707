//! What the extraction rules read of a parsed HTML tree: the elements that a
//! CSS selector matches, each with its text, its inner markup and the
//! attributes asked for. Parsing and matching are the `scraper` crate's.

use crate::text::{flat_text, flatten};
use vstd::prelude::*;

verus! {

/// One matched element.
#[derive(Clone, Debug)]
pub struct Element {
    /// Its text nodes, in document order.
    pub texts: Vec<String>,
    /// Its children, serialised.
    pub inner_html: String,
    /// The values of the attributes that the query named, in the query's order.
    pub attrs: Vec<Option<String>>,
}

/// What an [`Element`] stands for.
pub struct ElementView {
    pub texts: Seq<Seq<char>>,
    pub inner_html: Seq<char>,
    pub attrs: Seq<Option<Seq<char>>>,
}

impl DeepView for Element {
    type V = ElementView;

    open spec fn deep_view(&self) -> ElementView {
        ElementView {
            texts: self.texts.deep_view(),
            inner_html: self.inner_html@,
            attrs: self.attrs.deep_view(),
        }
    }
}

impl ElementView {
    /// The element's text: its text nodes joined by single spaces, normalised.
    pub open spec fn text(self) -> Seq<char> {
        flat_text(self.texts)
    }

    /// The value of the `k`-th attribute that the query named.
    pub open spec fn attr(self, k: int) -> Option<Seq<char>> {
        if 0 <= k < self.attrs.len() {
            self.attrs[k]
        } else {
            None
        }
    }
}

impl Element {
    /// The element's text: its text nodes joined by single spaces, normalised.
    pub fn text(&self) -> (r: String)
        ensures
            r@ == self.deep_view().text(),
    {
        flatten(&self.texts)
    }

    /// The value of the `k`-th attribute that the query named.
    pub fn attr(&self, k: usize) -> (r: Option<&String>)
        ensures
            r.deep_view() == self.deep_view().attr(k as int),
    {
        if k < self.attrs.len() {
            self.attrs[k].as_ref()
        } else {
            None
        }
    }
}

/// The elements of the document `html` that `selector` matches, in the order
/// in which `scraper` yields them; none if `selector` is no selector.
pub uninterp spec fn document_matches(
    html: Seq<char>,
    selector: Seq<char>,
    attrs: Seq<Seq<char>>,
) -> Seq<ElementView>;

/// As [`document_matches`], with `html` parsed as a fragment.
pub uninterp spec fn fragment_matches(
    html: Seq<char>,
    selector: Seq<char>,
    attrs: Seq<Seq<char>>,
) -> Seq<ElementView>;

/// The text nodes of the fragment `html`, in document order.
pub uninterp spec fn fragment_texts(html: Seq<char>) -> Seq<Seq<char>>;

/// What an element holds that matches two selectors: the text nodes of each
/// descendant that the first matches, and of each that the second matches.
#[derive(Clone, Debug)]
pub struct Nested {
    pub first: Vec<Vec<String>>,
    pub second: Vec<Vec<String>>,
}

/// What a [`Nested`] stands for.
pub struct NestedView {
    pub first: Seq<Seq<Seq<char>>>,
    pub second: Seq<Seq<Seq<char>>>,
}

impl DeepView for Nested {
    type V = NestedView;

    open spec fn deep_view(&self) -> NestedView {
        NestedView { first: self.first.deep_view(), second: self.second.deep_view() }
    }
}

/// For each element of the document `html` that `outer` matches: the text
/// nodes of each of its descendants that `first` matches, and of each that
/// `second` matches; no descendants for what is no selector.
pub uninterp spec fn nested_matches(
    html: Seq<char>,
    outer: Seq<char>,
    first: Seq<char>,
    second: Seq<char>,
) -> Seq<NestedView>;

/// `scraper::Html::parse_document`, `Selector::parse` and `Html::select`:
/// parses `html` as a document and reads each element that `selector`
/// matches. The result depends on the three arguments alone.
#[verifier::external_body]
pub(crate) fn select_in_document(html: &str, selector: &str, attrs: &[&str]) -> (r: Vec<Element>)
    ensures
        r.deep_view() == document_matches(html@, selector@, attrs.deep_view()),
{
    match scraper::Selector::parse(selector) {
        Ok(sel) => scraper::Html::parse_document(html).select(&sel).map(
            |e| Element {
                texts: e.text().map(String::from).collect(),
                inner_html: e.inner_html(),
                attrs: attrs.iter().map(|a| e.attr(a).map(String::from)).collect(),
            },
        ).collect(),
        Err(_) => Vec::new(),
    }
}

/// `scraper::Html::parse_fragment`, `Selector::parse` and `Html::select`:
/// parses `html` as a fragment and reads each element that `selector`
/// matches. The result depends on the three arguments alone.
#[verifier::external_body]
pub(crate) fn select_in_fragment(html: &str, selector: &str, attrs: &[&str]) -> (r: Vec<Element>)
    ensures
        r.deep_view() == fragment_matches(html@, selector@, attrs.deep_view()),
{
    match scraper::Selector::parse(selector) {
        Ok(sel) => scraper::Html::parse_fragment(html).select(&sel).map(
            |e| Element {
                texts: e.text().map(String::from).collect(),
                inner_html: e.inner_html(),
                attrs: attrs.iter().map(|a| e.attr(a).map(String::from)).collect(),
            },
        ).collect(),
        Err(_) => Vec::new(),
    }
}

/// `scraper::Html::parse_fragment`, `Html::root_element` and
/// `ElementRef::text`: the text nodes of the fragment. A parsed fragment
/// always has a root element. The result depends on `html` alone.
#[verifier::external_body]
pub(crate) fn texts_of_fragment(html: &str) -> (r: Vec<String>)
    ensures
        r.deep_view() == fragment_texts(html@),
{
    scraper::Html::parse_fragment(html).root_element().text().map(String::from).collect()
}

/// `scraper::Html::select` and, on each match, `ElementRef::select` and
/// `ElementRef::text`: the text nodes of the descendants that `first`
/// matches and of those that `second` matches. The result depends on the
/// four arguments alone.
#[verifier::external_body]
pub(crate) fn select_nested(html: &str, outer: &str, first: &str, second: &str) -> (r: Vec<Nested>)
    ensures
        r.deep_view() == nested_matches(html@, outer@, first@, second@),
{
    let first = scraper::Selector::parse(first).ok();
    let second = scraper::Selector::parse(second).ok();
    let read = |e: scraper::ElementRef, s: &Option<scraper::Selector>| -> Vec<Vec<String>> {
        s.iter().flat_map(|s| e.select(s)).map(|c| c.text().map(String::from).collect()).collect()
    };
    match scraper::Selector::parse(outer) {
        Ok(sel) => scraper::Html::parse_document(html).select(&sel).map(
            |e| Nested { first: read(e, &first), second: read(e, &second) },
        ).collect(),
        Err(_) => Vec::new(),
    }
}

} // verus!
