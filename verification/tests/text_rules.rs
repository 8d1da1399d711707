use game_scraper::pattern::parse_u64;
use game_scraper::segment::{capture_between_labels, split_csvish};
use game_scraper::sorted::{insert_sorted, locate, sort_dedup, str_order, Order};
use game_scraper::text::{
    chars_of, find_in, is_whitespace, normalize_ws, str_contains, string_of, to_ascii_lower,
    trim_str,
};

fn strings(items: &[&str]) -> Vec<String> {
    items.iter().map(|s| s.to_string()).collect()
}

#[test]
fn normalize_collapses_runs_and_trims() {
    assert_eq!(normalize_ws("  a \t\n b   c  "), "a b c");
    assert_eq!(normalize_ws("single"), "single");
    assert_eq!(normalize_ws(""), "");
    assert_eq!(normalize_ws(" \t\r\n "), "");
}

#[test]
fn normalize_knows_unicode_whitespace() {
    assert_eq!(normalize_ws("a\u{00A0}b\u{2003}\u{3000}c"), "a b c");
    assert_eq!(normalize_ws("\u{2028}x\u{0085}"), "x");
    // U+200B, the zero-width space, is no whitespace.
    assert_eq!(normalize_ws("a\u{200B}b"), "a\u{200B}b");
}

#[test]
fn normalize_is_idempotent_on_samples() {
    for s in ["", " ", "a", "  a  b ", "x\ty\nz", "\u{1680}p  q\u{205F}", "Genres/Tags:  Action ,RPG"] {
        let once = normalize_ws(s);
        assert_eq!(normalize_ws(&once), once);
        assert!(!once.starts_with(' '));
        assert!(!once.ends_with(' '));
        assert!(!once.contains("  "));
    }
}

#[test]
fn normalize_agrees_with_split_whitespace() {
    for s in [" a  b ", "\u{00A0}x\u{2009}y", "one", "  ", "t\u{000B}u\u{000C}v"] {
        let expected = s.split_whitespace().collect::<Vec<_>>().join(" ");
        assert_eq!(normalize_ws(s), expected);
    }
}

#[test]
fn whitespace_agrees_with_the_standard_library_on_every_character() {
    let mut c = 0u32;
    while c <= 0x10FFFF {
        if let Some(ch) = char::from_u32(c) {
            assert_eq!(is_whitespace(ch), ch.is_whitespace(), "U+{:04X}", c);
        }
        c += 1;
    }
}

#[test]
fn lower_case_touches_ascii_capitals_only() {
    assert_eq!(to_ascii_lower('A'), 'a');
    assert_eq!(to_ascii_lower('Z'), 'z');
    assert_eq!(to_ascii_lower('m'), 'm');
    assert_eq!(to_ascii_lower('['), '[');
    assert_eq!(to_ascii_lower('@'), '@');
    assert_eq!(to_ascii_lower('Ä'), 'Ä');
}

#[test]
fn chars_round_trip() {
    let s = "héllo wörld ✓";
    assert_eq!(string_of(&chars_of(s)), s);
    assert_eq!(chars_of("ab"), vec!['a', 'b']);
}

#[test]
fn trim_removes_whitespace_at_both_ends() {
    assert_eq!(trim_str("  a b \n"), "a b");
    assert_eq!(trim_str("\u{3000}x"), "x");
    assert_eq!(trim_str("   "), "");
    assert_eq!(trim_str(""), "");
}

#[test]
fn find_gives_the_first_position() {
    let text = chars_of("abcabc");
    assert_eq!(find_in(&text, &chars_of("bc"), 0), Some(1));
    assert_eq!(find_in(&text, &chars_of("bc"), 2), Some(4));
    assert_eq!(find_in(&text, &chars_of("bc"), 5), None);
    assert_eq!(find_in(&text, &chars_of("x"), 0), None);
    assert_eq!(find_in(&text, &chars_of(""), 6), Some(6));
    assert_eq!(find_in(&text, &chars_of(""), 7), None);
    assert_eq!(find_in(&text, &chars_of("abcabcd"), 0), None);
}

#[test]
fn contains_is_substring_search() {
    assert!(str_contains("entry-content", "try-con"));
    assert!(str_contains("abc", ""));
    assert!(!str_contains("abc", "abd"));
    assert!(!str_contains("", "a"));
}

#[test]
fn segment_reads_a_labelled_paragraph() {
    let p = "Genres/Tags: Action, RPG Companies: Studio X, Studio Y Languages: English Original Size: 4.2 GB Repack Size: 1.1 GB";
    assert_eq!(
        capture_between_labels(p, "Companies:", &["Languages:", "Original Size:", "Repack Size:"]),
        Some("Studio X, Studio Y".to_string())
    );
    assert_eq!(
        capture_between_labels(p, "Languages:", &["Original Size:", "Repack Size:"]),
        Some("English".to_string())
    );
    assert_eq!(
        capture_between_labels(p, "Original Size:", &["Repack Size:"]),
        Some("4.2 GB".to_string())
    );
    assert_eq!(capture_between_labels(p, "Repack Size:", &[]), Some("1.1 GB".to_string()));
}

#[test]
fn segment_needs_the_label() {
    assert_eq!(capture_between_labels("Languages: English", "Companies:", &["Languages:"]), None);
    assert_eq!(capture_between_labels("", "Companies:", &[]), None);
}

#[test]
fn segment_gives_nothing_for_a_blank_value() {
    assert_eq!(capture_between_labels("Companies:   Languages: English", "Companies:", &["Languages:"]), None);
    assert_eq!(capture_between_labels("Companies:", "Companies:", &[]), None);
    assert_eq!(capture_between_labels("Companies: X", "Companies:", &[""]), None);
}

#[test]
fn segment_takes_the_nearest_next_label_whatever_the_order() {
    let p = "A: one B: two C: three";
    assert_eq!(capture_between_labels(p, "A:", &["C:", "B:"]), Some("one".to_string()));
    assert_eq!(capture_between_labels(p, "A:", &["B:", "C:"]), Some("one".to_string()));
}

#[test]
fn segment_ignores_next_labels_before_the_label() {
    let p = "B: zero A: one B: two";
    assert_eq!(capture_between_labels(p, "A:", &["B:"]), Some("one".to_string()));
}

#[test]
fn segment_over_captures_when_a_label_is_missing_from_the_list() {
    let p = "Companies: Studio X Languages: English Repack Size: 1 GB";
    assert_eq!(
        capture_between_labels(p, "Companies:", &["Repack Size:"]),
        Some("Studio X Languages: English".to_string())
    );
}

#[test]
fn segment_works_on_text_beyond_ascii() {
    let p = "Société: Éditions Ünï → Langues: français";
    assert_eq!(capture_between_labels(p, "Société:", &["Langues:"]), Some("Éditions Ünï →".to_string()));
}

#[test]
fn segment_value_holds_no_next_label() {
    let p = "K: a b c L: d M: e";
    let nexts = ["M:", "L:"];
    let v = capture_between_labels(p, "K:", &nexts).unwrap();
    for n in nexts {
        assert!(!v.contains(n));
    }
}

#[test]
fn csv_values_are_trimmed_and_empties_dropped() {
    assert_eq!(split_csvish("Studio X, Studio Y"), strings(&["Studio X", "Studio Y"]));
    assert_eq!(split_csvish(" a ,, b ,  ,c,"), strings(&["a", "b", "c"]));
    assert_eq!(split_csvish(""), Vec::<String>::new());
    assert_eq!(split_csvish(" , "), Vec::<String>::new());
    assert_eq!(split_csvish("one"), strings(&["one"]));
}

#[test]
fn order_is_that_of_str() {
    let samples = ["", "a", "ab", "b", "B", "é", "z", "zz", "\u{10000}", "\u{FFFF}", "aé", "a\u{7f}"];
    for a in samples {
        for b in samples {
            let expected = match a.cmp(b) {
                std::cmp::Ordering::Less => Order::Before,
                std::cmp::Ordering::Equal => Order::Same,
                std::cmp::Ordering::Greater => Order::After,
            };
            assert_eq!(str_order(a, b), expected, "{:?} against {:?}", a, b);
        }
    }
}

#[test]
fn sort_dedup_agrees_with_sort_and_dedup() {
    let input = strings(&["rpg", "action", "rpg", "Action", "", "zeta", "action", "é", "e"]);
    let mut expected = input.clone();
    expected.sort();
    expected.dedup();
    assert_eq!(sort_dedup(input), expected);
    assert_eq!(sort_dedup(Vec::new()), Vec::<String>::new());
}

#[test]
fn sorted_lists_have_no_repeats() {
    let out = sort_dedup(strings(&["b", "a", "b", "a", "c"]));
    assert_eq!(out, strings(&["a", "b", "c"]));
    for w in out.windows(2) {
        assert!(w[0] < w[1]);
    }
}

#[test]
fn insert_sorted_keeps_order() {
    let mut list = strings(&["b", "d"]);
    insert_sorted(&mut list, "c".to_string());
    insert_sorted(&mut list, "a".to_string());
    insert_sorted(&mut list, "e".to_string());
    insert_sorted(&mut list, "c".to_string());
    assert_eq!(list, strings(&["a", "b", "c", "d", "e"]));
    assert_eq!(locate(&list, "c"), (true, 2));
    assert_eq!(locate(&list, "bb"), (false, 2));
    assert_eq!(locate(&list, "z"), (false, 5));
}

#[test]
fn decimal_parsing_agrees_with_the_standard_library() {
    for s in [
        "0", "7", "4821", "000123", "+5", "+", "", "-1", "12a", " 1", "1 ",
        "18446744073709551615", "18446744073709551616", "99999999999999999999999",
        "١٢٣", "+00", "++1",
    ] {
        assert_eq!(parse_u64(s), s.parse::<u64>().ok(), "{:?}", s);
    }
}

#[test]
fn decimal_parsing_gives_exact_values() {
    assert_eq!(parse_u64("4821"), Some(4821));
    assert_eq!(parse_u64("18446744073709551615"), Some(u64::MAX));
    assert_eq!(parse_u64("18446744073709551616"), None);
}
