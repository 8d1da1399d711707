//! Collapsible blocks, and the denylist that hides some of them by title.

use crate::dom::{nested_matches, select_nested, Nested, NestedView};
use crate::model::{SpoilerSection, SpoilerSectionView};
use crate::text::{ascii_lowercase, contains, contains_chars, flat_text, flatten, lowercase_chars};
use vstd::prelude::*;

verus! {

/// Some term of `denylist` stands in `title`, letter case aside.
pub open spec fn denied(title: Seq<char>, denylist: Seq<Seq<char>>) -> bool {
    exists|k: int|
        0 <= k < denylist.len() && contains(
            ascii_lowercase(title),
            ascii_lowercase(#[trigger] denylist[k]),
        )
}

/// A block is kept if its title is not denied and neither its title nor its
/// body is empty.
pub open spec fn kept(s: SpoilerSectionView, denylist: Seq<Seq<char>>) -> bool {
    !denied(s.title, denylist) && s.title.len() > 0 && s.text.len() > 0
}

/// The text of a part of a block: that of the first element found for the
/// part; empty where none was found.
pub open spec fn part_text(found: Seq<Seq<Seq<char>>>) -> Seq<char> {
    if found.len() == 0 {
        Seq::empty()
    } else {
        flat_text(found[0])
    }
}

/// A block as it was read: the text of its title part and of its content part.
pub open spec fn as_section(block: NestedView) -> SpoilerSectionView {
    SpoilerSectionView { title: part_text(block.first), text: part_text(block.second) }
}

/// The blocks that are kept, in order.
pub open spec fn spoiler_sections(blocks: Seq<NestedView>, denylist: Seq<Seq<char>>) -> Seq<
    SpoilerSectionView,
> {
    blocks.map_values(|b: NestedView| as_section(b)).filter(
        |s: SpoilerSectionView| kept(s, denylist),
    )
}

/// Two titles that differ in letter case only are denied alike.
pub proof fn lemma_denied_ignores_case(a: Seq<char>, b: Seq<char>, denylist: Seq<Seq<char>>)
    requires
        ascii_lowercase(a) == ascii_lowercase(b),
    ensures
        denied(a, denylist) == denied(b, denylist),
{
    if denied(a, denylist) {
        let k = choose|k: int|
            0 <= k < denylist.len() && contains(
                ascii_lowercase(a),
                ascii_lowercase(#[trigger] denylist[k]),
            );
        assert(contains(ascii_lowercase(b), ascii_lowercase(denylist[k])));
    }
    if denied(b, denylist) {
        let k = choose|k: int|
            0 <= k < denylist.len() && contains(
                ascii_lowercase(b),
                ascii_lowercase(#[trigger] denylist[k]),
            );
        assert(contains(ascii_lowercase(a), ascii_lowercase(denylist[k])));
    }
}

/// Two denylists whose terms differ in letter case only deny the same titles.
pub proof fn lemma_denylist_ignores_case(
    title: Seq<char>,
    first: Seq<Seq<char>>,
    second: Seq<Seq<char>>,
)
    requires
        first.len() == second.len(),
        forall|k: int|
            0 <= k < first.len() ==> ascii_lowercase(#[trigger] first[k]) == ascii_lowercase(
                second[k],
            ),
    ensures
        denied(title, first) == denied(title, second),
{
    if denied(title, first) {
        let k = choose|k: int|
            0 <= k < first.len() && contains(
                ascii_lowercase(title),
                ascii_lowercase(#[trigger] first[k]),
            );
        assert(contains(ascii_lowercase(title), ascii_lowercase(second[k])));
    }
    if denied(title, second) {
        let k = choose|k: int|
            0 <= k < second.len() && contains(
                ascii_lowercase(title),
                ascii_lowercase(#[trigger] second[k]),
            );
        assert(contains(ascii_lowercase(title), ascii_lowercase(first[k])));
    }
}

/// Whether a block is kept depends on its body only in that the body is not
/// empty: the denylist is held against the title alone.
pub proof fn lemma_denylist_reads_title_only(
    title: Seq<char>,
    first: Seq<char>,
    second: Seq<char>,
    denylist: Seq<Seq<char>>,
)
    requires
        first.len() > 0,
        second.len() > 0,
    ensures
        kept(SpoilerSectionView { title, text: first }, denylist) == kept(
            SpoilerSectionView { title, text: second },
            denylist,
        ),
        kept(SpoilerSectionView { title, text: first }, denylist) == (title.len() > 0 && !denied(
            title,
            denylist,
        )),
{
}

/// Whether some term of `denylist` stands in `title`, letter case aside.
pub fn is_denied(title: &str, denylist: &[String]) -> (b: bool)
    ensures
        b == denied(title@, denylist.deep_view()),
{
    let lower = lowercase_chars(title);
    let mut k: usize = 0;
    while k < denylist.len()
        invariant
            k <= denylist.len(),
            lower@ == ascii_lowercase(title@),
            forall|j: int|
                0 <= j < k ==> !contains(
                    ascii_lowercase(title@),
                    ascii_lowercase(#[trigger] denylist.deep_view()[j]),
                ),
        decreases denylist.len() - k,
    {
        let term = lowercase_chars(denylist[k].as_str());
        assert(denylist.deep_view()[k as int] == denylist[k as int]@);
        if contains_chars(&lower, &term) {
            return true;
        }
        k += 1;
    }
    false
}

/// The text of a part of a block: that of the first element found for it.
pub fn text_of_part(found: &Vec<Vec<String>>) -> (r: String)
    ensures
        r@ == part_text(found.deep_view()),
{
    if found.len() == 0 {
        String::new()
    } else {
        flatten(&found[0])
    }
}

/// The blocks of `blocks` that are kept under `denylist`, in order.
pub fn filter_spoilers(blocks: &Vec<Nested>, denylist: &[String]) -> (r: Vec<SpoilerSection>)
    ensures
        r.deep_view() == spoiler_sections(blocks.deep_view(), denylist.deep_view()),
{
    let ghost sections = blocks.deep_view().map_values(|b: NestedView| as_section(b));
    let ghost keep = |s: SpoilerSectionView| kept(s, denylist.deep_view());
    let mut out: Vec<SpoilerSection> = Vec::new();
    let mut i: usize = 0;
    proof {
        reveal(Seq::filter);
    }
    while i < blocks.len()
        invariant
            i <= blocks.len(),
            sections == blocks.deep_view().map_values(|b: NestedView| as_section(b)),
            keep == |s: SpoilerSectionView| kept(s, denylist.deep_view()),
            out.deep_view() == sections.take(i as int).filter(keep),
        decreases blocks.len() - i,
    {
        let title = text_of_part(&blocks[i].first);
        let text = text_of_part(&blocks[i].second);
        proof {
            reveal(Seq::filter);
            assert(sections.take(i + 1).drop_last() == sections.take(i as int));
        }
        if !is_denied(title.as_str(), denylist) && !title.as_str().is_empty()
            && !text.as_str().is_empty() {
            out.push(SpoilerSection { title, text });
        }
        i += 1;
    }
    assert(sections.take(i as int) == sections);
    out
}

/// The collapsible blocks of the document `html` that are kept under `denylist`.
pub fn extract_spoilers(html: &str, denylist: &[String]) -> (r: Vec<SpoilerSection>)
    ensures
        r.deep_view() == spoiler_sections(
            nested_matches(
                html@,
                "div.entry-content div.su-spoiler"@,
                "div.su-spoiler-title"@,
                "div.su-spoiler-content"@,
            ),
            denylist.deep_view(),
        ),
{
    let blocks = select_nested(
        html,
        "div.entry-content div.su-spoiler",
        "div.su-spoiler-title",
        "div.su-spoiler-content",
    );
    filter_spoilers(&blocks, denylist)
}

} // verus!
