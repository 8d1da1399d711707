//! Hyperlinks: which of them are magnet links or torrent files, and how
//! many lead to each host.

use crate::dom::{document_matches, select_in_document, Element, ElementView};
use crate::sorted::{sort_dedup, sorted_unique};
use crate::text::{
    ascii_lowercase, contains, contains_literal, lowercase_chars, starts_with,
    starts_with_literal, string_of, trim, trim_str,
};
use crate::textmap::TextMap;
use vstd::prelude::*;

verus! {

/// The host of the URL `href`; nothing if `href` is no URL or has no host.
pub uninterp spec fn url_host(href: Seq<char>) -> Option<Seq<char>>;

/// `url::Url::parse` and `Url::host_str`: the host of `href` as the parsed
/// URL writes it. The result depends on `href` alone.
#[verifier::external_body]
fn host_of(href: &str) -> (r: Option<String>)
    ensures
        r.deep_view() == url_host(href@),
{
    url::Url::parse(href).ok()?.host_str().map(|h| h.to_string())
}

/// The target starts with the magnet scheme, letter case aside.
pub open spec fn is_magnet(href: Seq<char>) -> bool {
    starts_with(ascii_lowercase(href), "magnet:"@)
}

/// The target starts with the scheme of HTTP or of HTTPS, letter case aside.
pub open spec fn is_http(href: Seq<char>) -> bool {
    starts_with(ascii_lowercase(href), "http://"@) || starts_with(
        ascii_lowercase(href),
        "https://"@,
    )
}

/// The target or the visible text speaks of a torrent file, letter case aside.
pub open spec fn looks_torrent(href: Seq<char>, text: Seq<char>) -> bool {
    ||| contains(ascii_lowercase(href), ".torrent"@)
    ||| contains(ascii_lowercase(text), ".torrent"@)
    ||| contains(ascii_lowercase(text), "torrent file"@)
}

/// What a link is taken for.
#[derive(Clone, Copy, Debug, PartialEq, Eq, Structural)]
pub enum LinkKind {
    Magnet,
    Torrent,
    Other,
}

/// What the link with target `href` and visible text `text` is taken for.
pub open spec fn link_kind(href: Seq<char>, text: Seq<char>) -> LinkKind {
    if is_magnet(href) {
        LinkKind::Magnet
    } else if is_http(href) && looks_torrent(href, text) {
        LinkKind::Torrent
    } else {
        LinkKind::Other
    }
}

/// What the link with target `href` and visible text `text` is taken for.
pub fn classify_link(href: &str, text: &str) -> (r: LinkKind)
    ensures
        r == link_kind(href@, text@),
{
    let href_l = lowercase_chars(href);
    if starts_with_literal(&href_l, "magnet:") {
        return LinkKind::Magnet;
    }
    let is_http = starts_with_literal(&href_l, "http://") || starts_with_literal(
        &href_l,
        "https://",
    );
    if !is_http {
        return LinkKind::Other;
    }
    let text_l = lowercase_chars(text);
    if contains_literal(&href_l, ".torrent") || contains_literal(&text_l, ".torrent")
        || contains_literal(&text_l, "torrent file") {
        LinkKind::Torrent
    } else {
        LinkKind::Other
    }
}

/// The trimmed target of a link element; nothing if it has none.
pub open spec fn target(e: ElementView) -> Option<Seq<char>> {
    match e.attr(0) {
        Some(h) => Some(trim(h)),
        None => None,
    }
}

/// The link element `e` is of kind `kind`.
pub open spec fn has_kind(e: ElementView, kind: LinkKind) -> bool {
    target(e) is Some && link_kind(target(e)->0, e.text()) == kind
}

/// The targets of the links of kind `kind`, in order.
pub open spec fn targets_of(links: Seq<ElementView>, kind: LinkKind) -> Seq<Seq<char>> {
    links.filter(|e: ElementView| has_kind(e, kind)).map_values(|e: ElementView| target(e)->0)
}

/// The visible texts of the torrent links that have one, in order.
pub open spec fn torrent_names(links: Seq<ElementView>) -> Seq<Seq<char>> {
    links.filter(
        |e: ElementView| has_kind(e, LinkKind::Torrent) && e.text().len() > 0,
    ).map_values(|e: ElementView| e.text())
}

/// The torrent and magnet links of a document, each list in ascending order
/// without repeats.
#[derive(Clone, Debug)]
pub struct TorrentMagnetExtract {
    pub torrent_file_names: Vec<String>,
    pub torrent_file_links: Vec<String>,
    pub magnet_links: Vec<String>,
}

/// Sorts the link elements `links`, read with the attribute `href`, into
/// magnet links, torrent links and the names of the torrent links.
pub fn classify_links(links: &Vec<Element>) -> (r: TorrentMagnetExtract)
    ensures
        r.torrent_file_names.deep_view() == sorted_unique(torrent_names(links.deep_view())),
        r.torrent_file_links.deep_view() == sorted_unique(
            targets_of(links.deep_view(), LinkKind::Torrent),
        ),
        r.magnet_links.deep_view() == sorted_unique(
            targets_of(links.deep_view(), LinkKind::Magnet),
        ),
{
    let ghost all = links.deep_view();
    let ghost is_torrent = |e: ElementView| has_kind(e, LinkKind::Torrent);
    let ghost is_named = |e: ElementView|
        has_kind(e, LinkKind::Torrent) && e.text().len() > 0;
    let ghost is_magnet_link = |e: ElementView| has_kind(e, LinkKind::Magnet);
    let ghost to_target = |e: ElementView| target(e)->0;
    let ghost to_text = |e: ElementView| e.text();
    let mut names: Vec<String> = Vec::new();
    let mut torrents: Vec<String> = Vec::new();
    let mut magnets: Vec<String> = Vec::new();
    let mut i: usize = 0;
    proof {
        reveal(Seq::filter);
    }
    while i < links.len()
        invariant
            i <= links.len(),
            all == links.deep_view(),
            is_torrent == |e: ElementView| has_kind(e, LinkKind::Torrent),
            is_named == |e: ElementView|
                has_kind(e, LinkKind::Torrent) && e.text().len() > 0,
            is_magnet_link == |e: ElementView| has_kind(e, LinkKind::Magnet),
            to_target == |e: ElementView| target(e)->0,
            to_text == |e: ElementView| e.text(),
            names.deep_view() == all.take(i as int).filter(is_named).map_values(to_text),
            torrents.deep_view() == all.take(i as int).filter(is_torrent).map_values(to_target),
            magnets.deep_view() == all.take(i as int).filter(is_magnet_link).map_values(
                to_target,
            ),
        decreases links.len() - i,
    {
        let ghost e = all[i as int];
        proof {
            reveal(Seq::filter);
            assert(all.take(i + 1).drop_last() == all.take(i as int));
        }
        match links[i].attr(0) {
            None => {},
            Some(raw) => {
                let href = trim_str(raw.as_str());
                let text = links[i].text();
                match classify_link(href.as_str(), text.as_str()) {
                    LinkKind::Magnet => {
                        magnets.push(href);
                    },
                    LinkKind::Torrent => {
                        torrents.push(href);
                        if !text.as_str().is_empty() {
                            names.push(text);
                        }
                    },
                    LinkKind::Other => {},
                }
            },
        }
        proof {
            let done = all.take(i as int);
            let next = all.take(i + 1);
            assert(next.filter(is_named).map_values(to_text) =~= if is_named(e) {
                done.filter(is_named).map_values(to_text).push(to_text(e))
            } else {
                done.filter(is_named).map_values(to_text)
            });
            assert(next.filter(is_torrent).map_values(to_target) =~= if is_torrent(e) {
                done.filter(is_torrent).map_values(to_target).push(to_target(e))
            } else {
                done.filter(is_torrent).map_values(to_target)
            });
            assert(next.filter(is_magnet_link).map_values(to_target) =~= if is_magnet_link(e) {
                done.filter(is_magnet_link).map_values(to_target).push(to_target(e))
            } else {
                done.filter(is_magnet_link).map_values(to_target)
            });
        }
        i += 1;
    }
    assert(all.take(i as int) == all);
    TorrentMagnetExtract {
        torrent_file_names: sort_dedup(names),
        torrent_file_links: sort_dedup(torrents),
        magnet_links: sort_dedup(magnets),
    }
}

/// The torrent and magnet links of the document `html`.
pub fn extract_torrent_and_magnet(html: &str) -> (r: TorrentMagnetExtract)
    ensures
        r.torrent_file_names.deep_view() == sorted_unique(torrent_names(link_elements(html@))),
        r.torrent_file_links.deep_view() == sorted_unique(
            targets_of(link_elements(html@), LinkKind::Torrent),
        ),
        r.magnet_links.deep_view() == sorted_unique(
            targets_of(link_elements(html@), LinkKind::Magnet),
        ),
{
    let links = select_links(html);
    classify_links(&links)
}

/// The elements of the document `html` that have a link target, each read
/// with that target.
pub open spec fn link_elements(html: Seq<char>) -> Seq<ElementView> {
    document_matches(html, "a[href]"@, seq!["href"@])
}

/// The elements of the document `html` that have a link target.
pub fn select_links(html: &str) -> (r: Vec<Element>)
    ensures
        r.deep_view() == link_elements(html@),
{
    let names: [&str; 1] = ["href"];
    let attrs: &[&str] = &names;
    assert(attrs.deep_view() =~= seq!["href"@]);
    select_in_document(html, "a[href]", attrs)
}

/// `counts` with one more link to `domain`.
pub open spec fn bump(counts: Map<Seq<char>, u64>, domain: Seq<char>) -> Map<Seq<char>, u64> {
    counts.insert(
        domain,
        if counts.contains_key(domain) {
            (counts[domain] + 1) as u64
        } else {
            1
        },
    )
}

/// Counts one more link to `domain`.
pub fn bump_domain_count(map: &mut TextMap<u64>, domain: &str)
    requires
        old(map).wf(),
        old(map)@.contains_key(domain@) ==> old(map)@[domain@] < u64::MAX,
    ensures
        final(map).wf(),
        final(map)@ == bump(old(map)@, domain@),
{
    let count: u64 = match map.get(domain) {
        Some(c) => *c + 1,
        None => 1,
    };
    map.insert(domain.to_owned(), count);
}

/// The host that a link to `href` is counted for, in lower case; nothing
/// unless `href` is an HTTP or HTTPS URL with a host.
pub open spec fn counted_host(href: Seq<char>) -> Option<Seq<char>> {
    if is_http(href) {
        match url_host(href) {
            Some(h) => Some(ascii_lowercase(h)),
            None => None,
        }
    } else {
        None
    }
}

/// The host that the link element `e` is counted for.
pub open spec fn host_of_link(e: ElementView) -> Option<Seq<char>> {
    match e.attr(0) {
        Some(h) => counted_host(h),
        None => None,
    }
}

/// How many of `links` lead to each host.
pub open spec fn domain_counts(links: Seq<ElementView>) -> Map<Seq<char>, u64>
    decreases links.len(),
{
    if links.len() == 0 {
        Map::empty()
    } else {
        let counts = domain_counts(links.drop_last());
        match host_of_link(links.last()) {
            Some(d) => bump(counts, d),
            None => counts,
        }
    }
}

/// No host is counted more often than there are links.
pub proof fn lemma_domain_counts_bounded(links: Seq<ElementView>)
    requires
        links.len() <= u64::MAX,
    ensures
        forall|d: Seq<char>| #[trigger]
            domain_counts(links).contains_key(d) ==> 1 <= domain_counts(links)[d] <= links.len(),
    decreases links.len(),
{
    if links.len() > 0 {
        let init = links.drop_last();
        lemma_domain_counts_bounded(init);
        let before = domain_counts(init);
        assert forall|d: Seq<char>| #[trigger]
            domain_counts(links).contains_key(d) implies 1 <= domain_counts(links)[d]
            <= links.len() by {
            if before.contains_key(d) {
                assert(1 <= before[d] <= init.len());
            }
        }
    }
}

/// The host that a link to `href` is counted for.
pub fn host_to_count(href: &str) -> (r: Option<String>)
    ensures
        r.deep_view() == counted_host(href@),
{
    let href_l = lowercase_chars(href);
    if !(starts_with_literal(&href_l, "http://") || starts_with_literal(&href_l, "https://")) {
        return None;
    }
    match host_of(href) {
        Some(h) => {
            let lower = lowercase_chars(h.as_str());
            Some(string_of(&lower))
        },
        None => None,
    }
}

/// How many of the link elements `links`, read with the attribute `href`,
/// lead to each host.
pub fn count_domains(links: &Vec<Element>) -> (r: TextMap<u64>)
    ensures
        r.wf(),
        r@ == domain_counts(links.deep_view()),
{
    let ghost all = links.deep_view();
    let mut out: TextMap<u64> = TextMap::new();
    let mut i: usize = 0;
    while i < links.len()
        invariant
            i <= links.len(),
            all == links.deep_view(),
            out.wf(),
            out@ == domain_counts(all.take(i as int)),
        decreases links.len() - i,
    {
        proof {
            assert(all.take(i + 1).drop_last() == all.take(i as int));
            lemma_domain_counts_bounded(all.take(i as int));
        }
        match links[i].attr(0) {
            None => {},
            Some(href) => {
                match host_to_count(href.as_str()) {
                    Some(host) => {
                        bump_domain_count(&mut out, host.as_str());
                    },
                    None => {},
                }
            },
        }
        i += 1;
    }
    assert(all.take(i as int) == all);
    out
}

/// How many links of the document `html` lead to each host. Magnet links
/// have no host and are never counted, whatever `ignore_magnet` says.
pub fn extract_domain_counts(html: &str, ignore_magnet: bool) -> (r: TextMap<u64>)
    ensures
        r.wf(),
        r@ == domain_counts(link_elements(html@)),
{
    let links = select_links(html);
    count_domains(&links)
}

} // verus!
