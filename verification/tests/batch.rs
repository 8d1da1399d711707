use game_scraper::config::{Config, LinkConfig, OutputConfig, ProfileConfig, ScrapeConfig};
use game_scraper::input::{is_html, is_html_extension, InputFile};
use game_scraper::parser::{
    is_wordpress_release, parse_many, parse_one, BatchRunner, ParseFailure,
};

const POST: &str = r#"<html><head><title>T</title></head><body>
<article id="post-4821" class="post tag-x"><div class="entry-content">
<h3>Release #123 — Game Name</h3></div></article></body></html>"#;

fn file(path: &str, bytes: &[u8]) -> InputFile {
    InputFile { path: path.to_string(), content: Ok(bytes.to_vec()) }
}

#[test]
fn layout_needs_both_markers_and_the_switch() {
    assert!(is_wordpress_release(POST, true));
    assert!(!is_wordpress_release(POST, false));
    assert!(!is_wordpress_release("<article id=\"post-1\"></article>", true));
    assert!(!is_wordpress_release("<div class=\"entry-content\"></div>", true));
    assert!(is_wordpress_release("entry-content article id=\"post-", true));
    assert!(!is_wordpress_release("<article id='post-1' class='entry-content'>", true));
    assert!(!is_wordpress_release("", true));
}

#[test]
fn a_release_post_is_classified_and_numbered() {
    let doc = parse_one(file("a/post.html", POST.as_bytes()), &Config::default()).unwrap();
    assert_eq!(doc.site, "wordpress_release");
    assert_eq!(doc.post.unwrap().post_id, Some(4821));
    assert_eq!(doc.release.unwrap().release_number, Some(123));
    assert_eq!(doc.source.path, "a/post.html");
    assert_eq!(doc.source.bytes, POST.len() as u64);
    assert_eq!(doc.source.sha256.len(), 64);
}

#[test]
fn the_source_carries_length_and_hash_of_the_bytes() {
    let doc = parse_one(file("x.html", b"abc"), &Config::default()).unwrap();
    assert_eq!(doc.site, "generic");
    assert_eq!(doc.source.bytes, 3);
    assert_eq!(
        doc.source.sha256,
        "ba7816bf8f01cfea414140de5dae2223b00361a396177a9cb410ff61f20015ad"
    );
}

#[test]
fn without_layout_detection_every_document_is_generic() {
    let mut cfg = Config::default();
    cfg.profile.wordpress_release_layout = false;
    let doc = parse_one(file("a.html", POST.as_bytes()), &cfg).unwrap();
    assert_eq!(doc.site, "generic");
    assert!(doc.post.is_none());
    assert!(doc.release.is_none());
}

#[test]
fn bytes_that_are_no_text_give_an_error() {
    let r = parse_one(file("bad.html", &[0x3c, 0xff, 0xfe, 0x3e]), &Config::default());
    match r {
        Err(ParseFailure::InputNotText(m)) => {
            assert!(!m.is_empty());
            let failure = ParseFailure::InputNotText(m.clone());
            assert_eq!(failure.message("bad.html"), format!("input is not valid UTF-8: {}", m));
        }
        _ => panic!("expected an error"),
    }
}

#[test]
fn a_file_that_was_not_read_gives_an_error() {
    let input = InputFile { path: "gone.html".to_string(), content: Err("No such file".to_string()) };
    match parse_one(input, &Config::default()) {
        Err(ParseFailure::InputUnreadable(m)) => {
            assert_eq!(m, "No such file");
            assert_eq!(
                ParseFailure::InputUnreadable(m).message("gone.html"),
                "read gone.html: No such file"
            );
        }
        _ => panic!("expected an error"),
    }
}

#[test]
fn text_is_decoded_as_utf8() {
    let html = "<title>Éditions ✓</title>";
    let doc = parse_one(file("u.html", html.as_bytes()), &Config::default()).unwrap();
    assert_eq!(doc.page.unwrap().title, Some("Éditions ✓".to_string()));
}

#[test]
fn one_bad_file_does_not_stop_the_run() {
    let files = vec![
        file("bad.html", &[0xc3, 0x28]),
        file("good.html", POST.as_bytes()),
    ];
    let bundle = parse_many(files, &Config::default());
    assert_eq!(bundle.documents.len(), 1);
    assert_eq!(bundle.documents[0].source.path, "good.html");
    assert_eq!(bundle.documents[0].post.as_ref().unwrap().post_id, Some(4821));
    assert_eq!(bundle.errors.len(), 1);
    assert_eq!(bundle.errors[0].path, "bad.html");
    assert!(bundle.errors[0].error.starts_with("input is not valid UTF-8: "));
    assert_eq!(bundle.stats.input_count, 2);
    assert_eq!(bundle.stats.parsed_ok, 1);
    assert_eq!(bundle.stats.parsed_err, 1);
}

#[test]
fn only_a_bad_file_gives_no_document() {
    let bundle = parse_many(vec![file("bad.bin", &[0x80])], &Config::default());
    assert!(bundle.documents.is_empty());
    assert_eq!(bundle.errors.len(), 1);
    assert_eq!(bundle.errors[0].path, "bad.bin");
    assert_eq!(bundle.stats.input_count, 1);
    assert_eq!(bundle.stats.parsed_ok, 0);
    assert_eq!(bundle.stats.parsed_err, 1);
}

#[test]
fn documents_and_errors_keep_the_order_of_the_inputs() {
    let files = vec![
        file("1.html", b"<title>one</title>"),
        InputFile { path: "2.html".to_string(), content: Err("denied".to_string()) },
        file("3.html", b"<title>three</title>"),
        file("4.html", &[0xff]),
        file("5.html", b""),
    ];
    let bundle = parse_many(files, &Config::default());
    let docs: Vec<&str> = bundle.documents.iter().map(|d| d.source.path.as_str()).collect();
    let errs: Vec<&str> = bundle.errors.iter().map(|e| e.path.as_str()).collect();
    assert_eq!(docs, vec!["1.html", "3.html", "5.html"]);
    assert_eq!(errs, vec!["2.html", "4.html"]);
    assert_eq!(bundle.errors[0].error, "read 2.html: denied");
    assert_eq!(bundle.stats.input_count, 5);
    assert_eq!(bundle.stats.parsed_ok + bundle.stats.parsed_err, 5);
    assert_eq!(bundle.tool.name, "game-scraper");
    assert_eq!(bundle.tool.version, "0.1.0");
}

#[test]
fn an_empty_run_gives_an_empty_result() {
    let bundle = parse_many(Vec::new(), &Config::default());
    assert!(bundle.documents.is_empty());
    assert!(bundle.errors.is_empty());
    assert_eq!(bundle.stats.input_count, 0);
    assert_eq!(bundle.stats.parsed_ok, 0);
    assert_eq!(bundle.stats.parsed_err, 0);
}

#[test]
fn html_files_are_known_by_extension() {
    assert!(is_html("a/b/page.html"));
    assert!(is_html("page.HTM"));
    assert!(is_html("archive.tar.Html"));
    assert!(!is_html("page.htmlx"));
    assert!(!is_html("page.txt"));
    assert!(!is_html("html"));
    assert!(!is_html(".html"));
    assert!(!is_html("dir.html/file"));
    assert!(!is_html(""));
    assert!(is_html_extension("html"));
    assert!(is_html_extension("hTm"));
    assert!(!is_html_extension(""));
    assert!(!is_html_extension("htm "));
    assert!(!is_html_extension("xhtml"));
}

#[test]
fn defaults_switch_everything_on() {
    let cfg = Config::default();
    assert!(cfg.output.pretty_json);
    assert!(!cfg.output.include_nulls);
    assert!(!cfg.output.ndjson);
    assert!(cfg.scrape.page_title && cfg.scrape.canonical_url && cfg.scrape.meta_tags);
    assert!(cfg.scrape.post_id && cfg.scrape.categories && cfg.scrape.wp_tags);
    assert!(cfg.scrape.entry_title && cfg.scrape.entry_datetime && cfg.scrape.author);
    assert!(cfg.scrape.comments_count && cfg.scrape.release_number && cfg.scrape.game_title_line);
    assert!(cfg.scrape.genres_tags && cfg.scrape.companies && cfg.scrape.languages);
    assert!(cfg.scrape.original_size && cfg.scrape.repack_size);
    assert!(cfg.scrape.spoiler_sections && cfg.scrape.download_section_presence);
    assert!(cfg.scrape.torrent_file && cfg.scrape.torrent_file_name);
    assert!(cfg.scrape.torrent_file_link && cfg.scrape.magnet);
    assert!(cfg.links.domain_counts && cfg.links.ignore_magnet);
    assert!(cfg.profile.wordpress_release_layout);
    assert_eq!(
        cfg.profile.spoiler_denylist,
        vec!["click to show direct links", "direct links", "magnet", "torrent"]
    );
}

#[test]
fn each_part_of_the_configuration_has_its_default() {
    assert!(OutputConfig::default().pretty_json);
    assert!(ScrapeConfig::default().magnet);
    assert!(LinkConfig::default().ignore_magnet);
    assert_eq!(ProfileConfig::default().spoiler_denylist.len(), 4);
}

#[test]
fn a_run_moves_once_for_each_file() {
    let cfg = Config::default();
    let mut runner = BatchRunner::new();
    assert_eq!(runner.recorded(), 0);
    runner.record("a.html".to_string(), parse_one(file("a.html", b"<title>a</title>"), &cfg));
    assert_eq!(runner.recorded(), 1);
    runner.record("b.html".to_string(), parse_one(file("b.html", &[0xff]), &cfg));
    runner.record("c.html".to_string(), Err(ParseFailure::InputUnreadable("locked".to_string())));
    assert_eq!(runner.recorded(), 3);
    let bundle = runner.finish();
    assert_eq!(bundle.stats.input_count, 3);
    assert_eq!(bundle.stats.parsed_ok, 1);
    assert_eq!(bundle.stats.parsed_err, 2);
    assert_eq!(bundle.documents[0].source.path, "a.html");
    assert_eq!(bundle.errors[0].path, "b.html");
    assert_eq!(bundle.errors[1].path, "c.html");
    assert_eq!(bundle.errors[1].error, "read c.html: locked");
}

#[test]
fn a_run_gives_what_parse_many_gives() {
    let cfg = Config::default();
    let mut runner = BatchRunner::new();
    for (path, bytes) in [("1.html", &b"<title>x</title>"[..]), ("2.html", &[0xc0, 0x80][..])] {
        runner.record(path.to_string(), parse_one(file(path, bytes), &cfg));
    }
    let one = runner.finish();
    let two = parse_many(vec![file("1.html", b"<title>x</title>"), file("2.html", &[0xc0, 0x80])], &cfg);
    assert_eq!(one.stats.parsed_ok, two.stats.parsed_ok);
    assert_eq!(one.stats.parsed_err, two.stats.parsed_err);
    assert_eq!(one.documents[0].source.sha256, two.documents[0].source.sha256);
    assert_eq!(one.errors[0].error, two.errors[0].error);
}

#[test]
fn helpers_are_found_under_the_parser() {
    assert_eq!(game_scraper::parser::util::normalize_ws(" a  b "), "a b");
    assert_eq!(game_scraper::parser::util::sha256_hex(b"").len(), 64);
    let mut map = game_scraper::textmap::TextMap::new();
    game_scraper::parser::util::bump_domain_count(&mut map, "host");
    assert_eq!(map.get("host"), Some(&1));
}

#[test]
fn an_html_path_holds_its_extension_behind_a_dot() {
    let paths = [
        "page.html", "PAGE.HTM", "a/b.c/page.Html", "page.html/", "page.html/.", "dir/page.htm//",
        "page.html/..", "..html", ".html", "html", "a.html.", "a.htmlx", "", ".", "..", "a b.htm",
        "é.html", "a\\b.html", "a/b.html\\c", "C:page.html", "x.tar.html",
    ];
    for p in paths {
        if is_html(p) {
            assert!(p.to_ascii_lowercase().contains(".htm"), "{:?}", p);
        }
    }
    assert!(is_html("page.html/"));
    assert!(is_html("..html"));
    assert!(is_html("é.html"));
    assert!(!is_html("a.html."));
    assert!(!is_html("page.html/.."));
}
