use game_scraper::config::Config;
use game_scraper::digest::sha256_hex;
use game_scraper::dom::{Element, Nested};
use game_scraper::extract::{all_texts_of, first_attr_of, first_text_of, select_text};
use game_scraper::links::{
    bump_domain_count, classify_link, classify_links, count_domains, extract_domain_counts,
    extract_torrent_and_magnet, host_to_count, select_links, LinkKind,
};
use game_scraper::model::ParsedDocument;
use game_scraper::parser::page::{collect_meta, extract_meta_tags, extract_page, select_attr};
use game_scraper::parser::post::{extract_post, find_number, select_all_text, tags_of_class};
use game_scraper::parser::release::{
    companies_in, extract_anchor_texts_from_fragment, extract_release,
    find_first_paragraph_html_containing, html_to_text, languages_in, original_size_in,
    repack_size_in,
};
use game_scraper::parser::release_page::{
    download_headings_among, parse_generic, parse_wordpress_release,
};
use game_scraper::spoiler::{extract_spoilers, filter_spoilers, is_denied, text_of_part};
use game_scraper::textmap::TextMap;

const RELEASE_PAGE: &str = r#"<!DOCTYPE html>
<html><head>
<title>  Game Name
   – Site </title>
<link rel="canonical" href="https://example.org/game-name/">
<meta property="og:title" content="Game Name">
<meta name="description" content="A game">
<meta property="og:title" content="Duplicate">
<meta name="viewport">
<meta content="no key">
<meta property="og:type" name="type" content="article">
</head>
<body>
<article id="post-4821" class="post-4821 post type-post tag-rpg tag-action category-games tag-rpg tag-">
<h1 class="entry-title">Game Name</h1>
<time class="entry-date" datetime="2024-01-02T03:04:05+00:00">January 2, 2024</time>
<span class="author"><a href="/author/x">Some   Author</a></span>
<span class="cat-links"><a href="/c/lossless">Lossless Repack</a>, <a href="/c/a">Adventure</a>, <a href="/c/lossless">Lossless Repack</a></span>
<span class="tolstoycomments-cc">Comments: 37 of 40</span>
<div class="entry-content">
<h3>Release #123 — Game Name</h3>
<p>Intro paragraph</p>
<p>Genres/Tags: <a href="https://example.org/tag/rpg/">RPG</a>, <a href="https://example.org/tag/action/">Action</a>, <a href="https://example.org/tag/rpg/">RPG</a>, <a href="https://example.org/other/">Other</a> Companies: Studio X, Studio Y Languages: English Original Size: 4.2 GB Repack Size: 1.1 GB</p>
<p>Genres/Tags: <a href="https://example.org/tag/second/">Second</a></p>
<h3>Download Mirrors</h3>
<a href="magnet:?xt=urn:btih:abc">magnet</a>
<a href=" https://host-a/file.torrent ">file.torrent</a>
<a href="https://HOST-A/page">page</a>
<div class="su-spoiler"><div class="su-spoiler-title">Direct Links</div><div class="su-spoiler-content">link list</div></div>
<div class="su-spoiler"><div class="su-spoiler-title">Screenshots</div><div class="su-spoiler-content">  shot
   one </div></div>
<div class="su-spoiler"><div class="su-spoiler-title">Empty</div><div class="su-spoiler-content">  </div></div>
<div class="su-spoiler"><div class="su-spoiler-content">no title</div></div>
</div>
</article></body></html>"#;

fn strings(items: &[&str]) -> Vec<String> {
    items.iter().map(|s| s.to_string()).collect()
}

fn element(text: &str, attrs: &[Option<&str>]) -> Element {
    Element {
        texts: vec![text.to_string()],
        inner_html: String::new(),
        attrs: attrs.iter().map(|a| a.map(String::from)).collect(),
    }
}

fn block(first: &[&str], second: &[&str]) -> Nested {
    Nested {
        first: first.iter().map(|t| vec![t.to_string()]).collect(),
        second: second.iter().map(|t| vec![t.to_string()]).collect(),
    }
}

fn counts(map: &TextMap<u64>) -> Vec<(String, u64)> {
    let (keys, values) = map.entries();
    keys.iter().cloned().zip(values.iter().copied()).collect()
}

fn wordpress(cfg: &Config) -> ParsedDocument {
    parse_wordpress_release(RELEASE_PAGE, cfg)
}

#[test]
fn first_text_is_normalised_and_never_empty() {
    assert_eq!(first_text_of(&vec![element("  a \n b ", &[]), element("c", &[])]), Some("a b".to_string()));
    assert_eq!(first_text_of(&vec![element("   ", &[]), element("c", &[])]), None);
    assert_eq!(first_text_of(&Vec::new()), None);
}

#[test]
fn all_texts_drops_the_empty_ones() {
    let els = vec![element(" x ", &[]), element(" ", &[]), element("y  z", &[])];
    assert_eq!(all_texts_of(&els), strings(&["x", "y z"]));
}

#[test]
fn first_attr_reads_the_first_element_only() {
    let els = vec![element("", &[None, Some("v")]), element("", &[Some("w"), None])];
    assert_eq!(first_attr_of(&els, 0), None);
    assert_eq!(first_attr_of(&els, 1), Some("v".to_string()));
    assert_eq!(first_attr_of(&els, 2), None);
    assert_eq!(first_attr_of(&Vec::new(), 0), None);
}

#[test]
fn select_text_reads_the_document() {
    assert_eq!(select_text(RELEASE_PAGE, "head > title"), Some("Game Name – Site".to_string()));
    assert_eq!(select_text(RELEASE_PAGE, "h1.entry-title"), Some("Game Name".to_string()));
    assert_eq!(select_text(RELEASE_PAGE, "h2.none"), None);
    assert_eq!(select_text(RELEASE_PAGE, "p >"), None);
}

#[test]
fn select_attr_reads_the_first_match() {
    assert_eq!(
        select_attr(RELEASE_PAGE, "link[rel='canonical']", "href"),
        Some("https://example.org/game-name/".to_string())
    );
    assert_eq!(select_attr(RELEASE_PAGE, "article", "id"), Some("post-4821".to_string()));
    assert_eq!(select_attr(RELEASE_PAGE, "article", "lang"), None);
    assert_eq!(select_attr(RELEASE_PAGE, "meta", "name"), None);
}

#[test]
fn select_all_text_reads_every_match() {
    assert_eq!(
        select_all_text(RELEASE_PAGE, "span.cat-links a"),
        strings(&["Lossless Repack", "Adventure", "Lossless Repack"])
    );
    assert_eq!(select_all_text(RELEASE_PAGE, "div.none"), Vec::<String>::new());
}

#[test]
fn meta_map_prefers_property_and_the_first_occurrence() {
    let map = extract_meta_tags(RELEASE_PAGE);
    let (keys, values) = map.entries();
    let got: Vec<(String, String)> = keys.iter().cloned().zip(values.iter().cloned()).collect();
    assert_eq!(
        got,
        vec![
            ("description".to_string(), "A game".to_string()),
            ("og:title".to_string(), "Game Name".to_string()),
            ("og:type".to_string(), "article".to_string()),
        ]
    );
}

#[test]
fn meta_map_skips_elements_without_key_or_content() {
    let els = vec![
        element("", &[None, None, Some("orphan")]),
        element("", &[Some("k"), None, None]),
        element("", &[None, Some("n"), Some("by name")]),
        element("", &[Some("n"), None, Some("later")]),
    ];
    let map = collect_meta(&els);
    assert_eq!(map.len(), 1);
    assert_eq!(map.get("n"), Some(&"by name".to_string()));
    assert_eq!(map.get("k"), None);
}

#[test]
fn numbers_are_found_by_pattern() {
    assert_eq!(find_number("post-(\\d+)", "post-4821"), Some(4821));
    assert_eq!(find_number("post-(\\d+)", "article post-12 post-34"), Some(12));
    assert_eq!(find_number("post-(\\d+)", "post-"), None);
    assert_eq!(find_number("#\\s*(\\d{1,6})", "Release #123 — Game Name"), Some(123));
    assert_eq!(find_number("#\\s*(\\d{1,6})", "Release # 1234567"), Some(123456));
    assert_eq!(find_number("#\\s*(\\d{1,6})", "Release 123"), None);
    assert_eq!(find_number("(\\d+)", "Comments: 37 of 40"), Some(37));
    assert_eq!(find_number("(\\d+)", "none"), None);
    assert_eq!(find_number("(\\d+)", "99999999999999999999999"), None);
    assert_eq!(find_number("(\\d+", "12"), None);
}

#[test]
fn tags_come_from_prefixed_classes() {
    assert_eq!(
        tags_of_class("post tag-rpg  tag-action category-x tag-rpg\ttag-"),
        strings(&["", "action", "rpg"])
    );
    assert_eq!(tags_of_class("post type-post"), Vec::<String>::new());
    assert_eq!(tags_of_class(""), Vec::<String>::new());
}

#[test]
fn page_block_holds_title_canonical_and_meta() {
    let cfg = Config::default();
    let page = extract_page(RELEASE_PAGE, &cfg.scrape).unwrap();
    assert_eq!(page.title, Some("Game Name – Site".to_string()));
    assert_eq!(page.canonical_url, Some("https://example.org/game-name/".to_string()));
    assert_eq!(page.meta.len(), 3);
}

#[test]
fn post_block_holds_the_post_fields() {
    let cfg = Config::default();
    let post = extract_post(RELEASE_PAGE, &cfg.scrape).unwrap();
    assert_eq!(post.post_id, Some(4821));
    assert_eq!(post.wp_tags, strings(&["", "action", "rpg"]));
    assert_eq!(post.categories, strings(&["Adventure", "Lossless Repack"]));
    assert_eq!(post.entry_title, Some("Game Name".to_string()));
    assert_eq!(post.entry_datetime, Some("2024-01-02T03:04:05+00:00".to_string()));
    assert_eq!(post.author, Some("Some Author".to_string()));
    assert_eq!(post.comments_count, Some(37));
}

#[test]
fn entry_datetime_falls_back_to_the_visible_text() {
    let html = r#"<article id="post-1"><time class="entry-date"> January 2,  2024 </time></article>"#;
    let cfg = Config::default();
    let post = extract_post(html, &cfg.scrape).unwrap();
    assert_eq!(post.entry_datetime, Some("January 2, 2024".to_string()));
    assert_eq!(post.comments_count, None);
    assert_eq!(post.author, None);
}

#[test]
fn release_block_holds_the_release_fields() {
    let cfg = Config::default();
    let release = extract_release(RELEASE_PAGE, &cfg.scrape).unwrap();
    assert_eq!(release.release_number, Some(123));
    assert_eq!(release.game_title_line, Some("Release #123 — Game Name".to_string()));
    assert_eq!(release.genres_tags, strings(&["Action", "RPG"]));
    assert_eq!(release.companies, strings(&["Studio X", "Studio Y"]));
    assert_eq!(release.languages_raw, Some("English".to_string()));
    assert_eq!(release.original_size_raw, Some("4.2 GB".to_string()));
    assert_eq!(release.repack_size_raw, Some("1.1 GB".to_string()));
}

#[test]
fn release_fields_are_absent_without_the_paragraph() {
    let html = r#"<div class="entry-content"><h3>Some Game</h3><p>Companies: X</p></div>"#;
    let cfg = Config::default();
    let release = extract_release(html, &cfg.scrape).unwrap();
    assert_eq!(release.release_number, None);
    assert_eq!(release.game_title_line, Some("Some Game".to_string()));
    assert_eq!(release.genres_tags, Vec::<String>::new());
    assert_eq!(release.companies, Vec::<String>::new());
    assert_eq!(release.languages_raw, None);
    assert_eq!(release.original_size_raw, None);
    assert_eq!(release.repack_size_raw, None);
}

#[test]
fn the_first_paragraph_with_the_marker_counts() {
    let p = find_first_paragraph_html_containing(RELEASE_PAGE, "div.entry-content p", "Genres/Tags:").unwrap();
    assert!(p.contains("Studio X"));
    assert!(!p.contains("Second"));
    assert_eq!(find_first_paragraph_html_containing(RELEASE_PAGE, "div.entry-content p", "Nowhere:"), None);
}

#[test]
fn fragments_are_read_for_anchors_and_text() {
    let p = r#"Genres/Tags: <a href="/tag/b/">B</a>, <a href="/tag/a/"> A </a>, <a href="/x/">X</a>, <a href="/tag/b/">B</a> end"#;
    assert_eq!(extract_anchor_texts_from_fragment(p, "a[href*='/tag/']"), strings(&["A", "B"]));
    assert_eq!(html_to_text(p), "Genres/Tags: B , A , X , B end");
    assert_eq!(html_to_text("<b>bold</b>"), "bold");
}

#[test]
fn paragraph_text_is_segmented_by_labels() {
    let text = "Genres/Tags: Action, RPG Companies: Studio X, Studio Y Languages: English Original Size: 4.2 GB Repack Size: 1.1 GB";
    assert_eq!(companies_in(text), strings(&["Studio X", "Studio Y"]));
    assert_eq!(languages_in(text), Some("English".to_string()));
    assert_eq!(original_size_in(text), Some("4.2 GB".to_string()));
    assert_eq!(repack_size_in(text), Some("1.1 GB".to_string()));
    assert_eq!(companies_in("Languages: English"), Vec::<String>::new());
}

#[test]
fn denylist_matches_the_title_whatever_the_case() {
    let denylist = strings(&["direct links", "MAGNET"]);
    assert!(is_denied("Direct Links", &denylist));
    assert!(is_denied("click for DIRECT LINKS here", &denylist));
    assert!(is_denied("Magnet", &denylist));
    assert!(!is_denied("Screenshots", &denylist));
    assert!(!is_denied("Direct  Links", &denylist));
    assert!(!is_denied("anything", &[]));
    assert!(is_denied("anything", &strings(&[""])));
}

#[test]
fn spoilers_are_filtered_by_title_only() {
    let denylist = strings(&["direct links"]);
    let blocks = vec![
        block(&["Direct Links"], &["body"]),
        block(&[" Screenshots "], &["see the direct links  below"]),
        block(&["Empty"], &["   "]),
        block(&[], &["no title"]),
        block(&["No body"], &[]),
    ];
    let kept = filter_spoilers(&blocks, &denylist);
    assert_eq!(kept.len(), 1);
    assert_eq!(kept[0].title, "Screenshots");
    assert_eq!(kept[0].text, "see the direct links below");
}

#[test]
fn spoilers_are_read_from_the_document() {
    let kept = extract_spoilers(RELEASE_PAGE, &strings(&["direct links"]));
    assert_eq!(kept.len(), 1);
    assert_eq!(kept[0].title, "Screenshots");
    assert_eq!(kept[0].text, "shot one");
    let all = extract_spoilers(RELEASE_PAGE, &[]);
    assert_eq!(all.len(), 2);
    assert_eq!(all[0].title, "Direct Links");
    assert_eq!(all[0].text, "link list");
}

#[test]
fn download_headings_are_found_whatever_the_case() {
    assert_eq!(
        download_headings_among(strings(&["Intro", "DOWNLOAD Mirrors (Direct)", "download mirrors", "Downloads"])),
        strings(&["DOWNLOAD Mirrors (Direct)", "download mirrors"])
    );
}

#[test]
fn links_are_classified_by_scheme_and_content() {
    assert_eq!(classify_link("magnet:?xt=urn:btih:abc", ""), LinkKind::Magnet);
    assert_eq!(classify_link("MAGNET:?xt=1", "x.torrent"), LinkKind::Magnet);
    assert_eq!(classify_link("https://host-a/file.torrent", ""), LinkKind::Torrent);
    assert_eq!(classify_link("http://host-a/get", "Game.TORRENT"), LinkKind::Torrent);
    assert_eq!(classify_link("HTTPS://host-a/get", "Download Torrent File"), LinkKind::Torrent);
    assert_eq!(classify_link("https://host-a/page", "page"), LinkKind::Other);
    assert_eq!(classify_link("ftp://host-a/file.torrent", "file.torrent"), LinkKind::Other);
    assert_eq!(classify_link("/file.torrent", "torrent file"), LinkKind::Other);
}

#[test]
fn link_lists_are_sorted_without_repeats() {
    let links = vec![
        element("b.torrent", &[Some("https://h/b.torrent")]),
        element("", &[Some(" magnet:?xt=2 ")]),
        element(" a.torrent ", &[Some("https://h/a.torrent")]),
        element("", &[Some("https://h/c.torrent")]),
        element("b.torrent", &[Some("https://h/b.torrent")]),
        element("magnet", &[Some("magnet:?xt=1")]),
        element("magnet", &[Some("magnet:?xt=2")]),
        element("page", &[Some("https://h/page")]),
        element("x.torrent", &[None]),
    ];
    let out = classify_links(&links);
    assert_eq!(out.torrent_file_names, strings(&["a.torrent", "b.torrent"]));
    assert_eq!(
        out.torrent_file_links,
        strings(&["https://h/a.torrent", "https://h/b.torrent", "https://h/c.torrent"])
    );
    assert_eq!(out.magnet_links, strings(&["magnet:?xt=1", "magnet:?xt=2"]));
}

#[test]
fn three_links_of_a_download_section() {
    let html = r#"<a href="magnet:?xt=urn:btih:abc">m</a>
        <a href="https://host-a/file.torrent">t</a>
        <a href="https://host-a/page">p</a>"#;
    let out = extract_torrent_and_magnet(html);
    assert_eq!(out.magnet_links.len(), 1);
    assert_eq!(out.torrent_file_links.len(), 1);
    assert_eq!(out.torrent_file_links, strings(&["https://host-a/file.torrent"]));
    assert_eq!(counts(&extract_domain_counts(html, true)), vec![("host-a".to_string(), 2)]);
    assert_eq!(counts(&extract_domain_counts(html, false)), vec![("host-a".to_string(), 2)]);
}

#[test]
fn hosts_are_counted_for_http_links_only() {
    assert_eq!(host_to_count("https://Example.ORG/a"), Some("example.org".to_string()));
    assert_eq!(host_to_count("HTTP://example.org:8080/a?b#c"), Some("example.org".to_string()));
    assert_eq!(host_to_count("https://user@sub.example.org/"), Some("sub.example.org".to_string()));
    assert_eq!(host_to_count("https://127.0.0.1/x"), Some("127.0.0.1".to_string()));
    assert_eq!(host_to_count("ftp://example.org/a"), None);
    assert_eq!(host_to_count("magnet:?xt=urn:btih:abc"), None);
    assert_eq!(host_to_count("/relative/path"), None);
    assert_eq!(host_to_count("https://"), None);
    assert_eq!(host_to_count(" https://example.org/"), None);
    assert_eq!(host_to_count(""), None);
}

#[test]
fn domains_are_counted_per_host() {
    let links = vec![
        element("", &[Some("https://b.example/1")]),
        element("", &[Some("https://a.example/1")]),
        element("", &[Some("http://B.example/2")]),
        element("", &[Some("magnet:?xt=1")]),
        element("", &[Some("not a url")]),
        element("", &[None]),
        element("", &[Some("https://b.example/3")]),
    ];
    assert_eq!(
        counts(&count_domains(&links)),
        vec![("a.example".to_string(), 1), ("b.example".to_string(), 3)]
    );
    assert_eq!(select_links(RELEASE_PAGE).len(), 12);
}

#[test]
fn bump_adds_one_to_a_domain() {
    let mut map: TextMap<u64> = TextMap::new();
    bump_domain_count(&mut map, "b");
    bump_domain_count(&mut map, "a");
    bump_domain_count(&mut map, "b");
    assert_eq!(map.get("a"), Some(&1));
    assert_eq!(map.get("b"), Some(&2));
    assert_eq!(map.get("c"), None);
    assert!(map.contains_key("a"));
    assert!(!map.contains_key("c"));
    assert_eq!(map.len(), 2);
    assert_eq!(counts(&map), vec![("a".to_string(), 1), ("b".to_string(), 2)]);
}

#[test]
fn text_map_insert_replaces_the_value() {
    let mut map: TextMap<u64> = TextMap::new();
    map.insert("k".to_string(), 1);
    map.insert("j".to_string(), 5);
    map.insert("k".to_string(), 2);
    assert_eq!(map.get("k"), Some(&2));
    assert_eq!(counts(&map), vec![("j".to_string(), 5), ("k".to_string(), 2)]);
}

#[test]
fn hash_is_sha256_in_lower_case_hex() {
    assert_eq!(
        sha256_hex(b""),
        "e3b0c44298fc1c149afbf4c8996fb92427ae41e4649b934ca495991b7852b855"
    );
    assert_eq!(
        sha256_hex(b"abc"),
        "ba7816bf8f01cfea414140de5dae2223b00361a396177a9cb410ff61f20015ad"
    );
}

#[test]
fn release_post_is_extracted_in_full() {
    let doc = wordpress(&Config::default());
    assert_eq!(doc.site, "wordpress_release");
    assert_eq!(doc.source.path, "");
    assert_eq!(doc.source.bytes, 0);
    assert_eq!(doc.post.as_ref().unwrap().post_id, Some(4821));
    assert_eq!(doc.release.as_ref().unwrap().release_number, Some(123));
    assert_eq!(doc.page.as_ref().unwrap().title, Some("Game Name – Site".to_string()));
    assert_eq!(doc.spoiler_sections.len(), 1);
    assert_eq!(doc.spoiler_sections[0].title, "Screenshots");
    assert_eq!(doc.download_section_headings, strings(&["Download Mirrors"]));
    assert_eq!(
        counts(&doc.link_domain_counts),
        vec![("example.org".to_string(), 5), ("host-a".to_string(), 1)]
    );
    assert_eq!(doc.torrent_file, Some(true));
    assert_eq!(doc.torrent_file_names, strings(&["file.torrent"]));
    assert_eq!(doc.torrent_file_links, strings(&["https://host-a/file.torrent"]));
    assert_eq!(doc.magnet_links, strings(&["magnet:?xt=urn:btih:abc"]));
}

#[test]
fn generic_document_has_page_and_links_only() {
    let doc = parse_generic(RELEASE_PAGE, &Config::default());
    assert_eq!(doc.site, "generic");
    assert!(doc.page.is_some());
    assert!(doc.post.is_none());
    assert!(doc.release.is_none());
    assert!(doc.spoiler_sections.is_empty());
    assert!(doc.download_section_headings.is_empty());
    assert_eq!(doc.link_domain_counts.len(), 2);
    assert_eq!(doc.torrent_file, Some(true));
    assert_eq!(doc.magnet_links, strings(&["magnet:?xt=urn:btih:abc"]));
}

#[test]
fn torrent_flag_is_false_without_torrent_links() {
    let doc = parse_generic(r#"<a href="https://host-a/page">p</a>"#, &Config::default());
    assert_eq!(doc.torrent_file, Some(false));
    assert!(doc.torrent_file_links.is_empty());
}

#[test]
fn a_switch_that_is_off_removes_its_field_and_no_other() {
    let full = wordpress(&Config::default());

    let mut cfg = Config::default();
    cfg.scrape.post_id = false;
    let doc = wordpress(&cfg);
    assert_eq!(doc.post.as_ref().unwrap().post_id, None);
    assert_eq!(doc.post.as_ref().unwrap().wp_tags, full.post.as_ref().unwrap().wp_tags);
    assert_eq!(doc.post.as_ref().unwrap().categories, full.post.as_ref().unwrap().categories);
    assert_eq!(doc.release.as_ref().unwrap().release_number, Some(123));
    assert_eq!(doc.spoiler_sections.len(), full.spoiler_sections.len());

    let mut cfg = Config::default();
    cfg.scrape.companies = false;
    let doc = wordpress(&cfg);
    assert!(doc.release.as_ref().unwrap().companies.is_empty());
    assert_eq!(doc.release.as_ref().unwrap().languages_raw, Some("English".to_string()));
    assert_eq!(doc.release.as_ref().unwrap().genres_tags, strings(&["Action", "RPG"]));

    let mut cfg = Config::default();
    cfg.scrape.spoiler_sections = false;
    let doc = wordpress(&cfg);
    assert!(doc.spoiler_sections.is_empty());
    assert_eq!(doc.download_section_headings, full.download_section_headings);

    let mut cfg = Config::default();
    cfg.links.domain_counts = false;
    let doc = wordpress(&cfg);
    assert_eq!(doc.link_domain_counts.len(), 0);
    assert_eq!(doc.magnet_links, full.magnet_links);

    let mut cfg = Config::default();
    cfg.scrape.torrent_file = false;
    let doc = wordpress(&cfg);
    assert_eq!(doc.torrent_file, None);
    assert_eq!(doc.torrent_file_links, full.torrent_file_links);

    let mut cfg = Config::default();
    cfg.scrape.magnet = false;
    let doc = wordpress(&cfg);
    assert!(doc.magnet_links.is_empty());
    assert_eq!(doc.torrent_file, Some(true));
}

#[test]
fn a_block_is_there_if_one_of_its_switches_is_on() {
    let mut cfg = Config::default();
    cfg.scrape.page_title = false;
    cfg.scrape.canonical_url = false;
    let doc = wordpress(&cfg);
    let page = doc.page.unwrap();
    assert_eq!(page.title, None);
    assert_eq!(page.canonical_url, None);
    assert_eq!(page.meta.len(), 3);

    cfg.scrape.meta_tags = false;
    assert!(wordpress(&cfg).page.is_none());

    cfg.scrape.post_id = false;
    cfg.scrape.categories = false;
    cfg.scrape.wp_tags = false;
    cfg.scrape.entry_title = false;
    cfg.scrape.entry_datetime = false;
    cfg.scrape.author = false;
    assert!(wordpress(&cfg).post.is_some());
    cfg.scrape.comments_count = false;
    assert!(wordpress(&cfg).post.is_none());

    cfg.scrape.release_number = false;
    cfg.scrape.game_title_line = false;
    cfg.scrape.genres_tags = false;
    cfg.scrape.companies = false;
    cfg.scrape.languages = false;
    cfg.scrape.original_size = false;
    assert!(wordpress(&cfg).release.is_some());
    cfg.scrape.repack_size = false;
    assert!(wordpress(&cfg).release.is_none());
}

#[test]
fn the_denylist_of_the_configuration_is_used() {
    let mut cfg = Config::default();
    cfg.profile.spoiler_denylist = strings(&["SCREEN"]);
    let doc = wordpress(&cfg);
    assert_eq!(doc.spoiler_sections.len(), 1);
    assert_eq!(doc.spoiler_sections[0].title, "Direct Links");
}

#[test]
fn element_text_joins_the_text_nodes_with_spaces() {
    let e = Element {
        texts: strings(&["Genres/Tags: ", "RPG", ",", "  Action\n"]),
        inner_html: String::new(),
        attrs: Vec::new(),
    };
    assert_eq!(e.text(), "Genres/Tags: RPG , Action");
    let empty = Element { texts: Vec::new(), inner_html: String::new(), attrs: Vec::new() };
    assert_eq!(empty.text(), "");
    let blank = Element { texts: strings(&[" ", "", "\t"]), inner_html: String::new(), attrs: Vec::new() };
    assert_eq!(blank.text(), "");
}

#[test]
fn the_first_element_of_a_part_gives_its_text() {
    assert_eq!(text_of_part(&vec![strings(&["Direct", "Links"]), strings(&["second"])]), "Direct Links");
    assert_eq!(text_of_part(&Vec::new()), "");
    assert_eq!(text_of_part(&vec![Vec::new()]), "");
}

#[test]
fn nested_text_nodes_are_joined() {
    let html = r#"<div class="entry-content"><div class="su-spoiler">
        <div class="su-spoiler-title"><b>System</b> Requirements</div>
        <div class="su-spoiler-content"><p>CPU</p><p>GPU</p></div>
        <div class="su-spoiler-title">ignored second title</div></div></div>"#;
    let kept = extract_spoilers(html, &[]);
    assert_eq!(kept.len(), 1);
    assert_eq!(kept[0].title, "System Requirements");
    assert_eq!(kept[0].text, "CPU GPU");
}
