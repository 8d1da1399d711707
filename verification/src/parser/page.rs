//! What the head of a document says: title, canonical URL and `meta` elements.

use crate::config::ScrapeConfig;
use crate::dom::{document_matches, select_in_document, Element, ElementView};
use crate::extract::{first_attr, first_attr_of, first_text, select_text};
use crate::model::{PageMeta, PageMetaView};
use crate::textmap::{text_values, TextMap};
use vstd::prelude::*;

verus! {

/// The key of a `meta` element read with `property`, `name` and `content`:
/// its property if it has one, else its name.
pub open spec fn meta_key(e: ElementView) -> Option<Seq<char>> {
    match e.attr(0) {
        Some(k) => Some(k),
        None => e.attr(1),
    }
}

/// From the key of each element that has a key and a content to that
/// content; of two elements with one key the first counts.
pub open spec fn meta_map(els: Seq<ElementView>) -> Map<Seq<char>, Seq<char>>
    decreases els.len(),
{
    if els.len() == 0 {
        Map::empty()
    } else {
        let before = meta_map(els.drop_last());
        match (meta_key(els.last()), els.last().attr(2)) {
            (Some(k), Some(v)) => if before.contains_key(k) {
                before
            } else {
                before.insert(k, v)
            },
            _ => before,
        }
    }
}

/// The map of the `meta` elements `els`, read with `property`, `name` and
/// `content`.
pub fn collect_meta(els: &Vec<Element>) -> (r: TextMap<String>)
    ensures
        r.wf(),
        text_values(r@) == meta_map(els.deep_view()),
{
    let ghost all = els.deep_view();
    let mut out: TextMap<String> = TextMap::new();
    let mut i: usize = 0;
    while i < els.len()
        invariant
            i <= els.len(),
            all == els.deep_view(),
            out.wf(),
            text_values(out@) == meta_map(all.take(i as int)),
        decreases els.len() - i,
    {
        proof {
            assert(all.take(i + 1).drop_last() == all.take(i as int));
        }
        let e = &els[i];
        let key = match e.attr(0) {
            Some(k) => Some(k),
            None => e.attr(1),
        };
        match (key, e.attr(2)) {
            (Some(k), Some(v)) => {
                if !out.contains_key(k.as_str()) {
                    let value = v.clone();
                    out.insert(k.clone(), value);
                }
            },
            _ => {},
        }
        i += 1;
    }
    assert(all.take(i as int) == all);
    out
}

/// The `meta` elements of the document `html`, each read with its
/// `property`, `name` and `content`.
pub open spec fn meta_elements(html: Seq<char>) -> Seq<ElementView> {
    document_matches(html, "meta"@, seq!["property"@, "name"@, "content"@])
}

/// The map of the `meta` elements of the document `html`.
pub fn extract_meta_tags(html: &str) -> (r: TextMap<String>)
    ensures
        r.wf(),
        text_values(r@) == meta_map(meta_elements(html@)),
{
    let names: [&str; 3] = ["property", "name", "content"];
    let attrs: &[&str] = &names;
    assert(attrs.deep_view() =~= seq!["property"@, "name"@, "content"@]);
    let els = select_in_document(html, "meta", attrs);
    collect_meta(&els)
}

/// The title of the document `html`.
#[verifier::opaque]
pub open spec fn page_title(html: Seq<char>) -> Option<Seq<char>> {
    first_text(document_matches(html, "head > title"@, Seq::empty()))
}

/// The canonical URL that the document `html` names.
#[verifier::opaque]
pub open spec fn canonical_url(html: Seq<char>) -> Option<Seq<char>> {
    first_attr(document_matches(html, "link[rel='canonical']"@, seq!["href"@]), 0)
}

/// From the key of each `meta` element of the document `html` to its content.
#[verifier::opaque]
pub open spec fn meta_tags(html: Seq<char>) -> Map<Seq<char>, Seq<char>> {
    meta_map(meta_elements(html))
}

/// The page block of the document `html` under the switches `scrape`: there
/// if one of the page switches is on, each field read if its own switch is.
pub open spec fn page_meta(html: Seq<char>, scrape: ScrapeConfig) -> Option<PageMetaView> {
    if scrape.any_page() {
        Some(
            PageMetaView {
                title: if scrape.page_title {
                    page_title(html)
                } else {
                    None
                },
                canonical_url: if scrape.canonical_url {
                    canonical_url(html)
                } else {
                    None
                },
                meta: if scrape.meta_tags {
                    meta_tags(html)
                } else {
                    Map::empty()
                },
            },
        )
    } else {
        None
    }
}

/// The value of `attr` at the first element of the document `html` that
/// `selector` matches.
pub fn select_attr(html: &str, selector: &str, attr: &str) -> (r: Option<String>)
    ensures
        r.deep_view() == first_attr(document_matches(html@, selector@, seq![attr@]), 0),
{
    let names: [&str; 1] = [attr];
    let attrs: &[&str] = &names;
    assert(attrs.deep_view() =~= seq![attr@]);
    let els = select_in_document(html, selector, attrs);
    first_attr_of(&els, 0)
}

/// The page block of the document `html` under the switches `scrape`.
pub fn extract_page(html: &str, scrape: &ScrapeConfig) -> (r: Option<PageMeta>)
    ensures
        r.deep_view() == page_meta(html@, *scrape),
        r is Some ==> r->0.meta.wf(),
{
    if !(scrape.page_title || scrape.canonical_url || scrape.meta_tags) {
        return None;
    }
    proof {
        reveal(page_title);
        reveal(canonical_url);
        reveal(meta_tags);
    }
    let title = if scrape.page_title {
        select_text(html, "head > title")
    } else {
        None
    };
    let canonical_url = if scrape.canonical_url {
        select_attr(html, "link[rel='canonical']", "href")
    } else {
        None
    };
    let meta = if scrape.meta_tags {
        extract_meta_tags(html)
    } else {
        let empty = TextMap::new();
        assert(text_values(empty@) =~= Map::<Seq<char>, Seq<char>>::empty());
        empty
    };
    Some(PageMeta { title, canonical_url, meta })
}

} // verus!
