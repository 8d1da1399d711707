//! The record of one document, put together from its fields under the
//! switches of the configuration.

use crate::config::{Config, Toggle};
use crate::dom::{document_matches, fragment_matches, nested_matches};
use crate::extract::{all_texts, first_attr};
use crate::links::{
    classify_links, count_domains, domain_counts, link_elements, select_links, targets_of,
    torrent_names, LinkKind,
};
use crate::model::{
    ParsedDocument, ParsedDocumentView, SourceInfo, SourceInfoView, SpoilerSectionView,
};
use crate::parser::page::{extract_page, page_meta};
use crate::parser::post::{
    article, categories, extract_post, post_meta, select_all_text, tag_classes, wp_tags,
};
use crate::parser::release::{details_paragraph, extract_release, genres_tags, release_meta};
use crate::sorted::{lemma_sorted_unique, sorted_unique, strictly_sorted};
use crate::spoiler::{extract_spoilers, spoiler_sections};
use crate::text::{ascii_lowercase, contains, contains_literal, lowercase_chars};
use crate::textmap::TextMap;
use vstd::prelude::*;

verus! {

/// The source of a document of which nothing is known yet.
pub open spec fn blank_source() -> SourceInfoView {
    SourceInfoView { path: Seq::empty(), bytes: 0, sha256: Seq::empty() }
}

/// `title` heads a section of download mirrors.
pub open spec fn is_download_heading(title: Seq<char>) -> bool {
    contains(ascii_lowercase(title), "download mirrors"@)
}

/// The headings of the download sections of the document `html`, in order.
#[verifier::opaque]
pub open spec fn download_headings(html: Seq<char>) -> Seq<Seq<char>> {
    all_texts(document_matches(html, "div.entry-content > h3"@, Seq::empty())).filter(
        |t: Seq<char>| is_download_heading(t),
    )
}

/// The collapsible blocks of the document `html` that are kept under `denylist`.
#[verifier::opaque]
pub open spec fn spoilers(html: Seq<char>, denylist: Seq<Seq<char>>) -> Seq<SpoilerSectionView> {
    spoiler_sections(
        nested_matches(
            html,
            "div.entry-content div.su-spoiler"@,
            "div.su-spoiler-title"@,
            "div.su-spoiler-content"@,
        ),
        denylist,
    )
}

/// The torrent links of the document `html`, in ascending order, each once.
#[verifier::opaque]
pub open spec fn torrent_links(html: Seq<char>) -> Seq<Seq<char>> {
    sorted_unique(targets_of(link_elements(html), LinkKind::Torrent))
}

/// The magnet links of the document `html`, in ascending order, each once.
#[verifier::opaque]
pub open spec fn magnet_links(html: Seq<char>) -> Seq<Seq<char>> {
    sorted_unique(targets_of(link_elements(html), LinkKind::Magnet))
}

/// The names of the torrent links of the document `html`, in ascending
/// order, each once.
#[verifier::opaque]
pub open spec fn torrent_link_names(html: Seq<char>) -> Seq<Seq<char>> {
    sorted_unique(torrent_names(link_elements(html)))
}

/// How many links of the document `html` lead to each host.
#[verifier::opaque]
pub open spec fn link_domain_counts(html: Seq<char>) -> Map<Seq<char>, u64> {
    domain_counts(link_elements(html))
}

/// The record of the document `html` where the layout of a release post was
/// not found: the page block and the links, each under its switch.
pub open spec fn generic_record(html: Seq<char>, cfg: Config) -> ParsedDocumentView {
    ParsedDocumentView {
        source: blank_source(),
        site: "generic"@,
        page: page_meta(html, cfg.scrape),
        post: None,
        release: None,
        spoiler_sections: Seq::empty(),
        link_domain_counts: if cfg.links.domain_counts {
            link_domain_counts(html)
        } else {
            Map::empty()
        },
        download_section_headings: Seq::empty(),
        torrent_file: if cfg.scrape.torrent_file {
            Some(torrent_links(html).len() > 0)
        } else {
            None
        },
        torrent_file_names: if cfg.scrape.torrent_file_name {
            torrent_link_names(html)
        } else {
            Seq::empty()
        },
        torrent_file_links: if cfg.scrape.torrent_file_link {
            torrent_links(html)
        } else {
            Seq::empty()
        },
        magnet_links: if cfg.scrape.magnet {
            magnet_links(html)
        } else {
            Seq::empty()
        },
    }
}

/// The record of the document `html` read as a release post: each block
/// there if one of its switches is on, each field read if its own switch is.
pub open spec fn wordpress_release_record(html: Seq<char>, cfg: Config) -> ParsedDocumentView {
    ParsedDocumentView {
        site: "wordpress_release"@,
        post: post_meta(html, cfg.scrape),
        release: release_meta(html, cfg.scrape),
        spoiler_sections: if cfg.scrape.spoiler_sections {
            spoilers(html, cfg.profile.spoiler_denylist.deep_view())
        } else {
            Seq::empty()
        },
        download_section_headings: if cfg.scrape.download_section_presence {
            download_headings(html)
        } else {
            Seq::empty()
        },
        ..generic_record(html, cfg)
    }
}

/// The titles of `titles` that head a section of download mirrors, in order.
pub fn download_headings_among(titles: Vec<String>) -> (r: Vec<String>)
    ensures
        r.deep_view() == titles.deep_view().filter(|t: Seq<char>| is_download_heading(t)),
{
    let ghost all = titles.deep_view();
    let ghost keep = |t: Seq<char>| is_download_heading(t);
    let mut out: Vec<String> = Vec::new();
    proof {
        reveal(Seq::filter);
    }
    for title in it: titles
        invariant
            all == titles.deep_view(),
            keep == |t: Seq<char>| is_download_heading(t),
            out.deep_view() == all.take(it.index() as int).filter(keep),
    {
        let ghost n = it.index() as int;
        proof {
            reveal(Seq::filter);
            assert(all.take(n + 1).drop_last() == all.take(n));
        }
        let lower = lowercase_chars(title.as_str());
        if contains_literal(&lower, "download mirrors") {
            out.push(title);
        }
    }
    assert(all.take(all.len() as int) == all);
    out
}

/// A record with nothing extracted yet.
fn blank_document(site: &str) -> (r: ParsedDocument)
    ensures
        r.wf(),
        r.deep_view() == (ParsedDocumentView {
            source: blank_source(),
            site: site@,
            page: None,
            post: None,
            release: None,
            spoiler_sections: Seq::empty(),
            link_domain_counts: Map::empty(),
            download_section_headings: Seq::empty(),
            torrent_file: None,
            torrent_file_names: Seq::empty(),
            torrent_file_links: Seq::empty(),
            magnet_links: Seq::empty(),
        }),
{
    let r = ParsedDocument {
        source: SourceInfo { path: String::new(), bytes: 0, sha256: String::new() },
        site: site.to_owned(),
        page: None,
        post: None,
        release: None,
        spoiler_sections: Vec::new(),
        link_domain_counts: TextMap::new(),
        download_section_headings: Vec::new(),
        torrent_file: None,
        torrent_file_names: Vec::new(),
        torrent_file_links: Vec::new(),
        magnet_links: Vec::new(),
    };
    assert(r.spoiler_sections.deep_view() =~= Seq::empty());
    assert(r.download_section_headings.deep_view() =~= Seq::empty());
    assert(r.torrent_file_names.deep_view() =~= Seq::empty());
    assert(r.torrent_file_links.deep_view() =~= Seq::empty());
    assert(r.magnet_links.deep_view() =~= Seq::empty());
    r
}

/// Reads the page block and the links of the document `html` into `out`.
fn fill_common(out: &mut ParsedDocument, html: &str, cfg: &Config)
    requires
        old(out).wf(),
        old(out).deep_view().torrent_file is None,
        old(out).deep_view().torrent_file_names == Seq::<Seq<char>>::empty(),
        old(out).deep_view().torrent_file_links == Seq::<Seq<char>>::empty(),
        old(out).deep_view().magnet_links == Seq::<Seq<char>>::empty(),
        old(out).deep_view().link_domain_counts == Map::<Seq<char>, u64>::empty(),
    ensures
        final(out).wf(),
        final(out).deep_view() == (ParsedDocumentView {
            page: generic_record(html@, *cfg).page,
            link_domain_counts: generic_record(html@, *cfg).link_domain_counts,
            torrent_file: generic_record(html@, *cfg).torrent_file,
            torrent_file_names: generic_record(html@, *cfg).torrent_file_names,
            torrent_file_links: generic_record(html@, *cfg).torrent_file_links,
            magnet_links: generic_record(html@, *cfg).magnet_links,
            ..old(out).deep_view()
        }),
{
    proof {
        reveal(link_domain_counts);
        reveal(torrent_links);
        reveal(magnet_links);
        reveal(torrent_link_names);
    }
    out.page = extract_page(html, &cfg.scrape);
    let torrents = cfg.scrape.torrent_file || cfg.scrape.torrent_file_name
        || cfg.scrape.torrent_file_link || cfg.scrape.magnet;
    if !cfg.links.domain_counts && !torrents {
        return;
    }
    let links = select_links(html);
    if cfg.links.domain_counts {
        out.link_domain_counts = count_domains(&links);
    }
    if torrents {
        let extracted = classify_links(&links);
        if cfg.scrape.torrent_file {
            out.torrent_file = Some(!extracted.torrent_file_links.is_empty());
        }
        if cfg.scrape.torrent_file_name {
            out.torrent_file_names = extracted.torrent_file_names;
        }
        if cfg.scrape.torrent_file_link {
            out.torrent_file_links = extracted.torrent_file_links;
        }
        if cfg.scrape.magnet {
            out.magnet_links = extracted.magnet_links;
        }
    }
}

/// Extracts the record of the document `html` where the layout of a release
/// post was not found.
pub fn parse_generic(html: &str, cfg: &Config) -> (r: ParsedDocument)
    ensures
        r.wf(),
        r.deep_view() == generic_record(html@, *cfg),
{
    let mut out = blank_document("generic");
    fill_common(&mut out, html, cfg);
    out
}

/// Extracts the record of the document `html`, read as a release post.
pub fn parse_wordpress_release(html: &str, cfg: &Config) -> (r: ParsedDocument)
    ensures
        r.wf(),
        r.deep_view() == wordpress_release_record(html@, *cfg),
{
    proof {
        reveal(spoilers);
        reveal(download_headings);
    }
    let mut out = blank_document("wordpress_release");
    fill_common(&mut out, html, cfg);
    out.post = extract_post(html, &cfg.scrape);
    out.release = extract_release(html, &cfg.scrape);
    if cfg.scrape.spoiler_sections {
        out.spoiler_sections = extract_spoilers(html, cfg.profile.spoiler_denylist.as_slice());
    }
    if cfg.scrape.download_section_presence {
        out.download_section_headings = download_headings_among(
            select_all_text(html, "div.entry-content > h3"),
        );
    }
    out
}

/// The lists of genres, tags, categories, torrent names, torrent links and
/// magnet links of a record are in ascending order and hold nothing twice.
pub open spec fn lists_sorted(doc: ParsedDocumentView) -> bool {
    &&& strictly_sorted(doc.release_or_blank().genres_tags)
    &&& strictly_sorted(doc.post_or_blank().wp_tags)
    &&& strictly_sorted(doc.post_or_blank().categories)
    &&& strictly_sorted(doc.torrent_file_names)
    &&& strictly_sorted(doc.torrent_file_links)
    &&& strictly_sorted(doc.magnet_links)
}

/// In every record the lists of genres, tags, categories, torrent names,
/// torrent links and magnet links are in ascending order and hold nothing
/// twice.
pub proof fn lemma_lists_sorted(html: Seq<char>, cfg: Config)
    ensures
        lists_sorted(wordpress_release_record(html, cfg)),
        lists_sorted(generic_record(html, cfg)),
{
    reveal(torrent_links);
    reveal(magnet_links);
    reveal(torrent_link_names);
    reveal(categories);
    reveal(wp_tags);
    reveal(genres_tags);
    let links = link_elements(html);
    lemma_sorted_unique(torrent_names(links));
    lemma_sorted_unique(targets_of(links, LinkKind::Torrent));
    lemma_sorted_unique(targets_of(links, LinkKind::Magnet));
    lemma_sorted_unique(all_texts(document_matches(html, "span.cat-links a"@, Seq::empty())));
    match first_attr(article(html), 1) {
        Some(class) => {
            lemma_sorted_unique(tag_classes(class));
        },
        None => {},
    }
    match details_paragraph(html) {
        Some(p) => {
            lemma_sorted_unique(all_texts(fragment_matches(p, "a[href*='/tag/']"@, Seq::empty())));
        },
        None => {},
    }
}

/// A block of the record is there exactly if one of its switches is on.
pub proof fn lemma_blocks_follow_switches(html: Seq<char>, cfg: Config)
    ensures
        wordpress_release_record(html, cfg).page is Some <==> cfg.scrape.any_page(),
        wordpress_release_record(html, cfg).post is Some <==> cfg.scrape.any_post(),
        wordpress_release_record(html, cfg).release is Some <==> cfg.scrape.any_release(),
        generic_record(html, cfg).page is Some <==> cfg.scrape.any_page(),
{
}

/// A field whose switch is off is absent from the record.
pub proof fn lemma_off_means_absent(html: Seq<char>, cfg: Config, t: Toggle)
    requires
        !cfg.is_on(t),
    ensures
        wordpress_release_record(html, cfg).field(t).is_absent(),
        generic_record(html, cfg).field(t).is_absent(),
{
    match t {
        Toggle::PageTitle | Toggle::CanonicalUrl | Toggle::MetaTags => {},
        Toggle::PostId
        | Toggle::Categories
        | Toggle::WpTags
        | Toggle::EntryTitle
        | Toggle::EntryDatetime
        | Toggle::Author
        | Toggle::CommentsCount => {},
        Toggle::ReleaseNumber
        | Toggle::GameTitleLine
        | Toggle::GenresTags
        | Toggle::Companies
        | Toggle::Languages
        | Toggle::OriginalSize
        | Toggle::RepackSize => {},
        Toggle::SpoilerSections
        | Toggle::DownloadSectionPresence
        | Toggle::TorrentFile
        | Toggle::TorrentFileName
        | Toggle::TorrentFileLink
        | Toggle::Magnet
        | Toggle::DomainCounts => {},
    }
}

/// Switching the switch `t` off leaves the field of another switch `u` as it was.
proof fn lemma_other_field_kept(html: Seq<char>, cfg: Config, t: Toggle, u: Toggle)
    requires
        u != t,
    ensures
        wordpress_release_record(html, cfg.without(t)).field(u) == wordpress_release_record(
            html,
            cfg,
        ).field(u),
        generic_record(html, cfg.without(t)).field(u) == generic_record(html, cfg).field(u),
{
    match u {
        Toggle::PageTitle | Toggle::CanonicalUrl | Toggle::MetaTags => {},
        Toggle::PostId
        | Toggle::Categories
        | Toggle::WpTags
        | Toggle::EntryTitle
        | Toggle::EntryDatetime
        | Toggle::Author
        | Toggle::CommentsCount => {},
        Toggle::ReleaseNumber
        | Toggle::GameTitleLine
        | Toggle::GenresTags
        | Toggle::Companies
        | Toggle::Languages
        | Toggle::OriginalSize
        | Toggle::RepackSize => {},
        Toggle::SpoilerSections
        | Toggle::DownloadSectionPresence
        | Toggle::TorrentFile
        | Toggle::TorrentFileName
        | Toggle::TorrentFileLink
        | Toggle::Magnet
        | Toggle::DomainCounts => {},
    }
}

/// Switching one switch off removes the field that it controls from the
/// record and changes no other field.
pub proof fn lemma_toggle_off(html: Seq<char>, cfg: Config, t: Toggle)
    ensures
        wordpress_release_record(html, cfg.without(t)).field(t).is_absent(),
        generic_record(html, cfg.without(t)).field(t).is_absent(),
        forall|u: Toggle|
            u != t ==> #[trigger] wordpress_release_record(html, cfg.without(t)).field(u)
                == wordpress_release_record(html, cfg).field(u),
        forall|u: Toggle|
            u != t ==> #[trigger] generic_record(html, cfg.without(t)).field(u) == generic_record(
                html,
                cfg,
            ).field(u),
        wordpress_release_record(html, cfg.without(t)).site == wordpress_release_record(
            html,
            cfg,
        ).site,
        wordpress_release_record(html, cfg.without(t)).source == wordpress_release_record(
            html,
            cfg,
        ).source,
{
    lemma_off_means_absent(html, cfg.without(t), t);
    assert forall|u: Toggle| u != t implies #[trigger] wordpress_release_record(
        html,
        cfg.without(t),
    ).field(u) == wordpress_release_record(html, cfg).field(u) by {
        lemma_other_field_kept(html, cfg, t, u);
    }
    assert forall|u: Toggle| u != t implies #[trigger] generic_record(html, cfg.without(t)).field(
        u,
    ) == generic_record(html, cfg).field(u) by {
        lemma_other_field_kept(html, cfg, t, u);
    }
}

} // verus!
