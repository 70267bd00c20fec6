use wiparse_gui::search::{
    byte_to_char, char_slice, char_to_byte, collect_line_hits, current_line_match,
    find_match_ranges, find_next_in_lines, find_next_range, find_prev_in_lines, find_prev_range,
    line_column_at, replace_all_in_lines, replace_all_matches, replace_char_range,
};

#[test]
fn document_find_wraps_and_tracks_unicode_characters() {
    let text = "第一行 ASK\n第二行 ASK";
    let first = find_next_range(text, "ASK", 0, true).unwrap();
    let second = find_next_range(text, "ASK", first.1, true).unwrap();
    let wrapped = find_next_range(text, "ASK", second.1, true).unwrap();
    assert_eq!(first.2, 1);
    assert_eq!(second.2, 2);
    assert_eq!((wrapped.0, wrapped.1), (first.0, first.1));
    let prev = find_prev_range(text, "ASK", second.0, true).unwrap();
    assert_eq!((prev.0, prev.1), (first.0, first.1));
}

#[test]
fn document_replace_all_supports_case_insensitive_matches() {
    let mut text = "Ask ASK ask".to_owned();
    let count = replace_all_matches(&mut text, "ask", "FSK", false);
    assert_eq!(count, 3);
    assert_eq!(text, "FSK FSK FSK");
}

#[test]
fn document_find_in_lines_wraps_without_joining_the_file() {
    let lines: Vec<String> = vec!["ASK a".into(), "x".into(), "ASK b".into()];
    let first = find_next_in_lines(&lines, "ASK", 0, 0, true).unwrap();
    assert_eq!((first.0, first.1, first.3), (0, 0, 1));
    let second = find_next_in_lines(&lines, "ASK", first.0, first.2, true).unwrap();
    assert_eq!((second.0, second.3), (2, 2));
    let wrapped = find_next_in_lines(&lines, "ASK", second.0, second.2, true).unwrap();
    assert_eq!((wrapped.0, wrapped.1), (first.0, first.1));
}

#[test]
fn document_cursor_reports_line_and_column() {
    assert_eq!(line_column_at("abc\n中文", 6), (2, 3));
}

#[test]
fn matches_do_not_overlap() {
    assert_eq!(find_match_ranges("aaaa", "aa", true), vec![(0, 2), (2, 4)]);
    assert_eq!(find_match_ranges("ababa", "aba", true), vec![(0, 3)]);
    assert_eq!(find_match_ranges("abc", "", true), Vec::<(usize, usize)>::new());
    assert_eq!(find_match_ranges("ab", "abc", true), Vec::<(usize, usize)>::new());
    assert_eq!(find_match_ranges("aBAb", "AB", false), vec![(0, 2), (2, 4)]);
}

#[test]
fn character_and_byte_positions_convert() {
    assert_eq!(char_to_byte("a中b", 0), 0);
    assert_eq!(char_to_byte("a中b", 2), 4);
    assert_eq!(char_to_byte("a中b", 9), 5);
    assert_eq!(byte_to_char("a中b", 4), 2);
    assert_eq!(byte_to_char("a中b", 99), 3);
    for i in 0..5 {
        assert_eq!(byte_to_char("é中x😀", char_to_byte("é中x😀", i)), i.min(4));
    }
    assert_eq!(char_slice("a中bc", 1, 3), "中b");
    assert_eq!(char_slice("a中bc", 3, 99), "c");
}

#[test]
fn replacing_one_range() {
    let mut text = "a中bc".to_owned();
    replace_char_range(&mut text, 1, 2, "--");
    assert_eq!(text, "a--bc");
    replace_char_range(&mut text, 9, 12, "!");
    assert_eq!(text, "a--bc!");
}

#[test]
fn replacing_a_text_by_itself_changes_nothing() {
    let mut text = "one two one".to_owned();
    assert_eq!(replace_all_matches(&mut text, "one", "one", true), 2);
    assert_eq!(text, "one two one");
    assert_eq!(replace_all_matches(&mut text, "three", "x", true), 0);
    assert_eq!(text, "one two one");
    assert_eq!(replace_all_matches(&mut text, "", "x", true), 0);
    assert_eq!(text, "one two one");
}

#[test]
fn replacing_in_lines_counts_all_lines() {
    let mut lines: Vec<String> = vec!["x a x".into(), "none".into(), "X".into()];
    assert_eq!(replace_all_in_lines(&mut lines, "x", "yy", false), 3);
    assert_eq!(lines, vec!["yy a yy", "none", "yy"]);
}

#[test]
fn previous_match_in_lines_wraps_to_the_last() {
    let lines: Vec<String> = vec!["ASK a".into(), "x".into(), "ASK b ASK".into()];
    assert_eq!(
        collect_line_hits(&lines, "ask", false),
        vec![(0, 0, 3), (2, 0, 3), (2, 6, 9)]
    );
    assert_eq!(find_prev_in_lines(&lines, "ASK", 0, 0, true), Some((2, 6, 9, 3, 3)));
    assert_eq!(find_prev_in_lines(&lines, "ASK", 2, 6, true), Some((2, 0, 3, 2, 3)));
    assert_eq!(find_prev_in_lines(&lines, "nope", 2, 6, true), None);
    assert_eq!(find_next_in_lines(&lines, "nope", 2, 6, true), None);
}

#[test]
fn current_match_is_the_touching_one_or_the_first() {
    assert_eq!(current_line_match("ab ab", "ab", 4, true), Some((3, 5)));
    assert_eq!(current_line_match("ab ab", "ab", 2, true), Some((0, 2)));
    assert_eq!(current_line_match("x ab", "ab", 0, true), Some((2, 4)));
    assert_eq!(current_line_match("x", "ab", 0, true), None);
}

#[test]
fn white_space_and_control_characters_follow_unicode() {
    for u in 0..=0x10ffffu32 {
        if let Some(c) = char::from_u32(u) {
            assert_eq!(wiparse_gui::text::is_white_space(c), c.is_whitespace());
            assert_eq!(wiparse_gui::text::is_control_char(c), c.is_control());
            assert_eq!(wiparse_gui::text::char_width(c), c.len_utf8());
            assert_eq!(wiparse_gui::text::lower_char(c), c.to_ascii_lowercase());
            assert_eq!(wiparse_gui::text::upper_char(c), c.to_ascii_uppercase());
        }
    }
}

#[test]
fn text_helpers() {
    assert_eq!(wiparse_gui::text::trim("  a b\t\u{3000}"), "a b");
    assert_eq!(wiparse_gui::text::trim(" \n "), "");
    assert_eq!(wiparse_gui::text::decimal_text(0), "0");
    assert_eq!(wiparse_gui::text::decimal_text(18446744073709551615), "18446744073709551615");
    assert!(wiparse_gui::text::starts_with("DEMO::x", "DEMO::"));
    assert!(!wiparse_gui::text::starts_with("DEM", "DEMO::"));
    assert!(wiparse_gui::text::ends_with("a.txt", ".txt"));
    assert!(!wiparse_gui::text::ends_with("txt", ".txt"));
}
