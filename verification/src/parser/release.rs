//! What the post says of the release: the title line and its number, and
//! the fields of the paragraph that starts the description.

use crate::config::ScrapeConfig;
use crate::dom::{
    document_matches, fragment_matches, fragment_texts, select_in_document, select_in_fragment,
    texts_of_fragment, Element, ElementView,
};
use crate::extract::{all_texts, all_texts_of, first_text, select_text};
use crate::model::{ReleaseMeta, ReleaseMetaView};
use crate::parser::post::{find_number, number_after};
use crate::segment::{capture_between_labels, comma_values, segment, split_csvish};
use crate::sorted::{sort_dedup, sorted_unique};
use crate::text::{contains, flat_text, flatten, str_contains};
use vstd::prelude::*;

verus! {

/// The number of a release as its title line writes it: up to six digits
/// behind a `#`, whitespace between them allowed.
pub open spec fn release_number_of(line: Seq<char>) -> Option<u64> {
    number_after("#\\s*(\\d{1,6})"@, line)
}

/// The inner markup of the first of `els` whose normalised text holds `needle`.
pub open spec fn first_containing(els: Seq<ElementView>, needle: Seq<char>) -> Option<Seq<char>>
    decreases els.len(),
{
    if els.len() == 0 {
        None
    } else if contains(els[0].text(), needle) {
        Some(els[0].inner_html)
    } else {
        first_containing(els.drop_first(), needle)
    }
}

/// The inner markup of the first of `els` whose normalised text holds `needle`.
pub fn find_first_containing(els: &Vec<Element>, needle: &str) -> (r: Option<String>)
    ensures
        r.deep_view() == first_containing(els.deep_view(), needle@),
{
    let ghost all = els.deep_view();
    let mut i: usize = 0;
    assert(all.skip(0) == all);
    while i < els.len()
        invariant
            i <= els.len(),
            all == els.deep_view(),
            first_containing(all, needle@) == first_containing(all.skip(i as int), needle@),
        decreases els.len() - i,
    {
        let text = els[i].text();
        proof {
            assert(all.skip(i as int).drop_first() == all.skip(i + 1));
        }
        if str_contains(text.as_str(), needle) {
            return Some(els[i].inner_html.clone());
        }
        i += 1;
    }
    None
}

/// The title line of the release in the document `html`: the first heading
/// of the third level in the content container.
#[verifier::opaque]
pub open spec fn title_line(html: Seq<char>) -> Option<Seq<char>> {
    first_text(document_matches(html, "div.entry-content > h3"@, Seq::empty()))
}

/// The number of the release in the document `html`.
#[verifier::opaque]
pub open spec fn release_number(html: Seq<char>) -> Option<u64> {
    match title_line(html) {
        Some(line) => release_number_of(line),
        None => None,
    }
}

/// The inner markup of the paragraph of the document `html` that lists the
/// genres: the first in the content container whose text holds `Genres/Tags:`.
pub open spec fn details_paragraph(html: Seq<char>) -> Option<Seq<char>> {
    first_containing(
        document_matches(html, "div.entry-content p"@, Seq::empty()),
        "Genres/Tags:"@,
    )
}

/// The genres that the paragraph `p` links to, in ascending order, each once.
pub open spec fn genres_of(p: Seq<char>) -> Seq<Seq<char>> {
    sorted_unique(all_texts(fragment_matches(p, "a[href*='/tag/']"@, Seq::empty())))
}

/// The labels that may follow the companies in the paragraph.
pub open spec fn after_companies() -> Seq<Seq<char>> {
    seq!["Languages:"@, "Original Size:"@, "Repack Size:"@]
}

/// The labels that may follow the languages in the paragraph.
pub open spec fn after_languages() -> Seq<Seq<char>> {
    seq!["Original Size:"@, "Repack Size:"@]
}

/// The labels that may follow the original size in the paragraph.
pub open spec fn after_original_size() -> Seq<Seq<char>> {
    seq!["Repack Size:"@]
}

/// The companies that the paragraph text `text` names.
pub open spec fn companies_of(text: Seq<char>) -> Seq<Seq<char>> {
    match segment(text, "Companies:"@, after_companies()) {
        Some(v) => comma_values(v),
        None => Seq::empty(),
    }
}

/// The companies that the paragraph text `text` names.
pub fn companies_in(text: &str) -> (r: Vec<String>)
    ensures
        r.deep_view() == companies_of(text@),
{
    let labels: [&str; 3] = ["Languages:", "Original Size:", "Repack Size:"];
    let nexts: &[&str] = &labels;
    assert(nexts.deep_view() =~= after_companies());
    match capture_between_labels(text, "Companies:", nexts) {
        Some(v) => split_csvish(v.as_str()),
        None => {
            let none: Vec<String> = Vec::new();
            none
        },
    }
}

/// The languages that the paragraph text `text` names, as written.
pub fn languages_in(text: &str) -> (r: Option<String>)
    ensures
        r.deep_view() == segment(text@, "Languages:"@, after_languages()),
{
    let labels: [&str; 2] = ["Original Size:", "Repack Size:"];
    let nexts: &[&str] = &labels;
    assert(nexts.deep_view() =~= after_languages());
    capture_between_labels(text, "Languages:", nexts)
}

/// The original size that the paragraph text `text` names, as written.
pub fn original_size_in(text: &str) -> (r: Option<String>)
    ensures
        r.deep_view() == segment(text@, "Original Size:"@, after_original_size()),
{
    let labels: [&str; 1] = ["Repack Size:"];
    let nexts: &[&str] = &labels;
    assert(nexts.deep_view() =~= after_original_size());
    capture_between_labels(text, "Original Size:", nexts)
}

/// The repack size that the paragraph text `text` names, as written.
pub fn repack_size_in(text: &str) -> (r: Option<String>)
    ensures
        r.deep_view() == segment(text@, "Repack Size:"@, Seq::empty()),
{
    let labels: [&str; 0] = [];
    let nexts: &[&str] = &labels;
    capture_between_labels(text, "Repack Size:", nexts)
}

/// The normalised text of the paragraph of the document `html` that lists
/// the genres.
pub open spec fn details_text(html: Seq<char>) -> Option<Seq<char>> {
    match details_paragraph(html) {
        Some(p) => Some(flat_text(fragment_texts(p))),
        None => None,
    }
}

/// The genres of the release in the document `html`.
#[verifier::opaque]
pub open spec fn genres_tags(html: Seq<char>) -> Seq<Seq<char>> {
    match details_paragraph(html) {
        Some(p) => genres_of(p),
        None => Seq::empty(),
    }
}

/// The companies of the release in the document `html`.
#[verifier::opaque]
pub open spec fn companies(html: Seq<char>) -> Seq<Seq<char>> {
    match details_text(html) {
        Some(t) => companies_of(t),
        None => Seq::empty(),
    }
}

/// The languages of the release in the document `html`, as written.
#[verifier::opaque]
pub open spec fn languages(html: Seq<char>) -> Option<Seq<char>> {
    match details_text(html) {
        Some(t) => segment(t, "Languages:"@, after_languages()),
        None => None,
    }
}

/// The original size of the release in the document `html`, as written.
#[verifier::opaque]
pub open spec fn original_size(html: Seq<char>) -> Option<Seq<char>> {
    match details_text(html) {
        Some(t) => segment(t, "Original Size:"@, after_original_size()),
        None => None,
    }
}

/// The repack size of the release in the document `html`, as written.
#[verifier::opaque]
pub open spec fn repack_size(html: Seq<char>) -> Option<Seq<char>> {
    match details_text(html) {
        Some(t) => segment(t, "Repack Size:"@, Seq::empty()),
        None => None,
    }
}

/// The release block of the document `html` under the switches `scrape`:
/// there if one of the release switches is on, each field read if its own
/// switch is. The fields of the paragraph are absent where there is no
/// such paragraph.
pub open spec fn release_meta(html: Seq<char>, scrape: ScrapeConfig) -> Option<ReleaseMetaView> {
    if scrape.any_release() {
        Some(
            ReleaseMetaView {
                release_number: if scrape.release_number {
                    release_number(html)
                } else {
                    None
                },
                game_title_line: if scrape.game_title_line {
                    title_line(html)
                } else {
                    None
                },
                genres_tags: if scrape.genres_tags {
                    genres_tags(html)
                } else {
                    Seq::empty()
                },
                companies: if scrape.companies {
                    companies(html)
                } else {
                    Seq::empty()
                },
                languages_raw: if scrape.languages {
                    languages(html)
                } else {
                    None
                },
                original_size_raw: if scrape.original_size {
                    original_size(html)
                } else {
                    None
                },
                repack_size_raw: if scrape.repack_size {
                    repack_size(html)
                } else {
                    None
                },
            },
        )
    } else {
        None
    }
}

/// The inner markup of the first element of the document `html` that
/// `selector` matches and whose normalised text holds `needle`.
pub fn find_first_paragraph_html_containing(html: &str, selector: &str, needle: &str) -> (r:
    Option<String>)
    ensures
        r.deep_view() == first_containing(
            document_matches(html@, selector@, Seq::empty()),
            needle@,
        ),
{
    let none: [&str; 0] = [];
    let attrs: &[&str] = &none;
    assert(attrs.deep_view() =~= Seq::<Seq<char>>::empty());
    let els = select_in_document(html, selector, attrs);
    find_first_containing(&els, needle)
}

/// The normalised texts of the elements of the fragment `fragment_html`
/// that `selector` matches, in ascending order, each once.
pub fn extract_anchor_texts_from_fragment(fragment_html: &str, selector: &str) -> (r: Vec<String>)
    ensures
        r.deep_view() == sorted_unique(
            all_texts(fragment_matches(fragment_html@, selector@, Seq::empty())),
        ),
{
    let none: [&str; 0] = [];
    let attrs: &[&str] = &none;
    assert(attrs.deep_view() =~= Seq::<Seq<char>>::empty());
    let els = select_in_fragment(fragment_html, selector, attrs);
    sort_dedup(all_texts_of(&els))
}

/// The normalised text of the fragment `fragment_html`.
pub fn html_to_text(fragment_html: &str) -> (r: String)
    ensures
        r@ == flat_text(fragment_texts(fragment_html@)),
{
    let texts = texts_of_fragment(fragment_html);
    flatten(&texts)
}

/// The release block of the document `html` under the switches `scrape`.
pub fn extract_release(html: &str, scrape: &ScrapeConfig) -> (r: Option<ReleaseMeta>)
    ensures
        r.deep_view() == release_meta(html@, *scrape),
{
    if !(scrape.release_number || scrape.game_title_line || scrape.genres_tags || scrape.companies
        || scrape.languages || scrape.original_size || scrape.repack_size) {
        return None;
    }
    proof {
        reveal(title_line);
        reveal(release_number);
        reveal(genres_tags);
        reveal(companies);
        reveal(languages);
        reveal(original_size);
        reveal(repack_size);
    }
    let mut release = ReleaseMeta {
        release_number: None,
        game_title_line: None,
        genres_tags: Vec::new(),
        companies: Vec::new(),
        languages_raw: None,
        original_size_raw: None,
        repack_size_raw: None,
    };
    assert(release.companies.deep_view() =~= Seq::<Seq<char>>::empty());
    if scrape.game_title_line || scrape.release_number {
        let line = select_text(html, "div.entry-content > h3");
        if scrape.release_number {
            release.release_number = match &line {
                Some(value) => find_number("#\\s*(\\d{1,6})", value.as_str()),
                None => None,
            };
        }
        if scrape.game_title_line {
            release.game_title_line = line;
        }
    }
    if scrape.genres_tags || scrape.companies || scrape.languages || scrape.original_size
        || scrape.repack_size {
        match find_first_paragraph_html_containing(html, "div.entry-content p", "Genres/Tags:") {
            Some(p) => {
                if scrape.genres_tags {
                    release.genres_tags = extract_anchor_texts_from_fragment(
                        p.as_str(),
                        "a[href*='/tag/']",
                    );
                }
                let text = html_to_text(p.as_str());
                if scrape.companies {
                    release.companies = companies_in(text.as_str());
                }
                if scrape.languages {
                    release.languages_raw = languages_in(text.as_str());
                }
                if scrape.original_size {
                    release.original_size_raw = original_size_in(text.as_str());
                }
                if scrape.repack_size {
                    release.repack_size_raw = repack_size_in(text.as_str());
                }
            },
            None => {},
        }
    }
    Some(release)
}

} // verus!
