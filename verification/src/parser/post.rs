//! What the post's own markup says: its number, its tags and categories,
//! its title, date, author and the number of its comments.

use crate::config::ScrapeConfig;
use crate::dom::{document_matches, select_in_document, ElementView};
use crate::extract::{
    all_texts, all_texts_of, first_attr, first_attr_of, first_text, first_text_of, select_text,
};
use crate::model::{PostMeta, PostMetaView};
use crate::pattern::{capture_group, parse_decimal, parse_u64, regex_group};
use crate::sorted::{sort_dedup, sorted_unique};
use crate::text::{chars_of, has_prefix, split_words, starts_with, string_of_range, words};
use vstd::prelude::*;

verus! {

/// The number written by the first group of `pattern` where it first
/// matches in `text`; nothing if there is no match or the digits are no `u64`.
pub open spec fn number_after(pattern: Seq<char>, text: Seq<char>) -> Option<u64> {
    match regex_group(pattern, text, 1) {
        Some(digits) => parse_decimal(digits),
        None => None,
    }
}

/// The number written by the first group of `pattern` where it first
/// matches in `text`.
pub fn find_number(pattern: &str, text: &str) -> (r: Option<u64>)
    ensures
        r == number_after(pattern@, text@),
{
    match capture_group(pattern, text, 1) {
        Some(digits) => parse_u64(digits.as_str()),
        None => None,
    }
}

/// The number of a post as its element's `id` writes it: the digits behind `post-`.
pub open spec fn post_id_of(id: Seq<char>) -> Option<u64> {
    number_after("post-(\\d+)"@, id)
}

/// The first run of digits in `text`, as a number.
pub open spec fn first_number(text: Seq<char>) -> Option<u64> {
    number_after("(\\d+)"@, text)
}

/// `w` is a class that names a tag.
pub open spec fn is_tag_class(w: Seq<char>) -> bool {
    starts_with(w, "tag-"@)
}

/// The tags that the classes of `class` name, in order: each class that
/// starts with `tag-`, without that prefix.
pub open spec fn tag_classes(class: Seq<char>) -> Seq<Seq<char>> {
    words(class).filter(|w: Seq<char>| is_tag_class(w)).map_values(
        |w: Seq<char>| w.skip("tag-"@.len() as int),
    )
}

/// The tags that the classes of `class` name, in ascending order, each once.
pub fn tags_of_class(class: &str) -> (r: Vec<String>)
    ensures
        r.deep_view() == sorted_unique(tag_classes(class@)),
{
    let chars = chars_of(class);
    let tokens = split_words(&chars);
    let prefix = chars_of("tag-");
    let ghost all = words(class@);
    let ghost is_tag = |w: Seq<char>| is_tag_class(w);
    let ghost strip = |w: Seq<char>| w.skip("tag-"@.len() as int);
    let mut out: Vec<String> = Vec::new();
    let mut i: usize = 0;
    proof {
        reveal(Seq::filter);
    }
    while i < tokens.len()
        invariant
            i <= tokens.len(),
            all == tokens.deep_view(),
            prefix@ == "tag-"@,
            is_tag == |w: Seq<char>| is_tag_class(w),
            strip == |w: Seq<char>| w.skip("tag-"@.len() as int),
            out.deep_view() == all.take(i as int).filter(is_tag).map_values(strip),
        decreases tokens.len() - i,
    {
        let token = &tokens[i];
        proof {
            reveal(Seq::filter);
            assert(all.take(i + 1).drop_last() == all.take(i as int));
            assert(all[i as int] =~= token@);
        }
        if has_prefix(token, &prefix) {
            let tag = string_of_range(token, prefix.len(), token.len());
            out.push(tag);
            assert(all.take(i + 1).filter(is_tag).map_values(strip) =~= all.take(
                i as int,
            ).filter(is_tag).map_values(strip).push(strip(token@)));
        }
        i += 1;
    }
    assert(all.take(i as int) == all);
    sort_dedup(out)
}

/// The post's root element in the document `html`, read with `id` and `class`.
pub open spec fn article(html: Seq<char>) -> Seq<ElementView> {
    document_matches(html, "article[id^='post-']"@, seq!["id"@, "class"@])
}

/// The number of the post in the document `html`.
#[verifier::opaque]
pub open spec fn post_id(html: Seq<char>) -> Option<u64> {
    match first_attr(article(html), 0) {
        Some(id) => post_id_of(id),
        None => None,
    }
}

/// The tags of the post in the document `html`.
#[verifier::opaque]
pub open spec fn wp_tags(html: Seq<char>) -> Seq<Seq<char>> {
    match first_attr(article(html), 1) {
        Some(class) => sorted_unique(tag_classes(class)),
        None => Seq::empty(),
    }
}

/// The categories of the post in the document `html`, in ascending order,
/// each once.
#[verifier::opaque]
pub open spec fn categories(html: Seq<char>) -> Seq<Seq<char>> {
    sorted_unique(all_texts(document_matches(html, "span.cat-links a"@, Seq::empty())))
}

/// When the post in the document `html` was written: what the date
/// element's `datetime` says, else its text.
#[verifier::opaque]
pub open spec fn entry_datetime(html: Seq<char>) -> Option<Seq<char>> {
    let els = document_matches(html, "time.entry-date"@, seq!["datetime"@]);
    match first_attr(els, 0) {
        Some(d) => Some(d),
        None => first_text(els),
    }
}

/// The number of comments on the post in the document `html`.
#[verifier::opaque]
pub open spec fn comments_count(html: Seq<char>) -> Option<u64> {
    match first_text(document_matches(html, "span.tolstoycomments-cc"@, Seq::empty())) {
        Some(t) => first_number(t),
        None => None,
    }
}

/// The title of the post in the document `html`.
#[verifier::opaque]
pub open spec fn entry_title(html: Seq<char>) -> Option<Seq<char>> {
    first_text(document_matches(html, "h1.entry-title"@, Seq::empty()))
}

/// The author of the post in the document `html`.
#[verifier::opaque]
pub open spec fn author(html: Seq<char>) -> Option<Seq<char>> {
    first_text(document_matches(html, "span.author a"@, Seq::empty()))
}

/// The post block of the document `html` under the switches `scrape`: there
/// if one of the post switches is on, each field read if its own switch is.
pub open spec fn post_meta(html: Seq<char>, scrape: ScrapeConfig) -> Option<PostMetaView> {
    if scrape.any_post() {
        Some(
            PostMetaView {
                post_id: if scrape.post_id {
                    post_id(html)
                } else {
                    None
                },
                categories: if scrape.categories {
                    categories(html)
                } else {
                    Seq::empty()
                },
                wp_tags: if scrape.wp_tags {
                    wp_tags(html)
                } else {
                    Seq::empty()
                },
                entry_title: if scrape.entry_title {
                    entry_title(html)
                } else {
                    None
                },
                entry_datetime: if scrape.entry_datetime {
                    entry_datetime(html)
                } else {
                    None
                },
                author: if scrape.author {
                    author(html)
                } else {
                    None
                },
                comments_count: if scrape.comments_count {
                    comments_count(html)
                } else {
                    None
                },
            },
        )
    } else {
        None
    }
}

/// The normalised texts of the elements of the document `html` that
/// `selector` matches, without the empty ones.
pub fn select_all_text(html: &str, selector: &str) -> (r: Vec<String>)
    ensures
        r.deep_view() == all_texts(document_matches(html@, selector@, Seq::empty())),
{
    let none: [&str; 0] = [];
    let attrs: &[&str] = &none;
    assert(attrs.deep_view() =~= Seq::<Seq<char>>::empty());
    let els = select_in_document(html, selector, attrs);
    all_texts_of(&els)
}

/// The post block of the document `html` under the switches `scrape`.
pub fn extract_post(html: &str, scrape: &ScrapeConfig) -> (r: Option<PostMeta>)
    ensures
        r.deep_view() == post_meta(html@, *scrape),
{
    if !(scrape.post_id || scrape.categories || scrape.wp_tags || scrape.entry_title
        || scrape.entry_datetime || scrape.author || scrape.comments_count) {
        return None;
    }
    proof {
        reveal(post_id);
        reveal(wp_tags);
        reveal(categories);
        reveal(entry_title);
        reveal(entry_datetime);
        reveal(author);
        reveal(comments_count);
    }
    let mut post = PostMeta {
        post_id: None,
        categories: Vec::new(),
        wp_tags: Vec::new(),
        entry_title: None,
        entry_datetime: None,
        author: None,
        comments_count: None,
    };
    assert(post.wp_tags.deep_view() =~= Seq::<Seq<char>>::empty());
    if scrape.post_id || scrape.wp_tags {
        let names: [&str; 2] = ["id", "class"];
        let attrs: &[&str] = &names;
        assert(attrs.deep_view() =~= seq!["id"@, "class"@]);
        let root = select_in_document(html, "article[id^='post-']", attrs);
        if scrape.post_id {
            post.post_id = match first_attr_of(&root, 0) {
                Some(id) => find_number("post-(\\d+)", id.as_str()),
                None => None,
            };
        }
        if scrape.wp_tags {
            match first_attr_of(&root, 1) {
                Some(class) => {
                    post.wp_tags = tags_of_class(class.as_str());
                },
                None => {},
            }
        }
    }
    if scrape.categories {
        post.categories = sort_dedup(select_all_text(html, "span.cat-links a"));
    }
    if scrape.entry_title {
        post.entry_title = select_text(html, "h1.entry-title");
    }
    if scrape.entry_datetime {
        let names: [&str; 1] = ["datetime"];
        let attrs: &[&str] = &names;
        assert(attrs.deep_view() =~= seq!["datetime"@]);
        let els = select_in_document(html, "time.entry-date", attrs);
        post.entry_datetime = match first_attr_of(&els, 0) {
            Some(d) => Some(d),
            None => first_text_of(&els),
        };
    }
    if scrape.author {
        post.author = select_text(html, "span.author a");
    }
    if scrape.comments_count {
        post.comments_count = match select_text(html, "span.tolstoycomments-cc") {
            Some(t) => find_number("(\\d+)", t.as_str()),
            None => None,
        };
    }
    Some(post)
}

} // verus!
