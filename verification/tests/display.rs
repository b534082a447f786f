use worktrunk::display::truncate::{fit_count, is_wider, truncate_glyphs};
use worktrunk::display::width::{cols_of, display_width, glyph, measure, text_of, Glyph};
use worktrunk::display::{
    find_common_prefix, format_relative_time, get_terminal_width, shorten_path,
    truncate_at_word_boundary,
};

#[test]
fn truncate_is_identity_when_text_fits() {
    assert_eq!(truncate_at_word_boundary("short message", 20), "short message");
    assert_eq!(truncate_at_word_boundary("exact", 5), "exact");
    assert_eq!(truncate_at_word_boundary("", 0), "");
}

#[test]
fn truncate_cuts_at_word_boundary_with_ellipsis() {
    let out = truncate_at_word_boundary("Fix the layout of the table on narrow terminals", 20);
    assert_eq!(out, "Fix the layout...");
    assert!(display_width(&out) <= 20);
    assert!(out.ends_with("..."));
}

#[test]
fn truncate_without_space_cuts_at_last_fitting_character() {
    assert_eq!(truncate_at_word_boundary("abcdefghijklmnop", 8), "abcde...");
}

#[test]
fn truncate_measures_columns_not_bytes() {
    // Each of the six characters is two columns wide and three bytes long.
    let wide = "日本語日本語";
    assert_eq!(display_width(wide), 12);
    let out = truncate_at_word_boundary(wide, 10);
    assert_eq!(out, "日本語...");
    assert_eq!(display_width(&out), 9);
    // Accented letters take one column each though they take two bytes.
    assert_eq!(truncate_at_word_boundary("éééé", 4), "éééé");
}

#[test]
fn truncate_below_three_columns_gives_the_bare_ellipsis() {
    assert_eq!(truncate_at_word_boundary("hello world", 2), "...");
    assert_eq!(truncate_at_word_boundary("hello world", 0), "...");
}

#[test]
fn truncate_trims_whitespace_before_the_ellipsis() {
    assert_eq!(truncate_at_word_boundary("one  two three four", 9), "one...");
    assert_eq!(truncate_at_word_boundary("alpha beta   gamma", 14), "alpha beta...");
    assert_eq!(truncate_at_word_boundary("   leading words here", 12), "...");
}

#[test]
fn widths_of_single_characters() {
    assert_eq!(cols_of('a'), 1);
    assert_eq!(cols_of(' '), 1);
    assert_eq!(cols_of('日'), 2);
    assert_eq!(cols_of('\n'), 0);
    assert_eq!(cols_of('\u{0}'), 0);
    assert_eq!(display_width("a日\n"), 3);
}

#[test]
fn glyphs_carry_the_widths_they_are_given() {
    // The cutting goes by the widths in the glyphs, wherever they come from.
    let g = |text: &str, cols: usize| -> Vec<Glyph> {
        text.chars().map(|ch| Glyph { ch, cols }).collect()
    };
    assert_eq!(text_of(&truncate_glyphs(&g("abcdef", 1), 6)), "abcdef");
    assert_eq!(text_of(&truncate_glyphs(&g("abcdef", 1), 5)), "ab...");
    assert_eq!(text_of(&truncate_glyphs(&g("abcdef", 3), 17)), "abcd...");
    assert_eq!(text_of(&truncate_glyphs(&g("abcdef", 0), 0)), "abcdef");
    assert_eq!(text_of(&truncate_glyphs(&g("ab cd ef", 1), 7)), "ab...");
    assert_eq!(fit_count(&g("abcdef", 2), 5), 2);
    assert_eq!(fit_count(&g("abcdef", 2), 0), 0);
    assert_eq!(fit_count(&g("abc", 0), 0), 3);
    assert!(is_wider(&g("abc", 2), 5));
    assert!(!is_wider(&g("abc", 2), 6));
    assert!(!is_wider(&g("", usize::MAX), 0));
    assert!(is_wider(&g("ab", usize::MAX), usize::MAX));
    assert_eq!(measure("a日"), vec![Glyph { ch: 'a', cols: 1 }, Glyph { ch: '日', cols: 2 }]);
    assert_eq!(glyph('\t'), Glyph { ch: '\t', cols: 0 });
}

#[test]
fn relative_time_units() {
    let now: i64 = 1_700_000_000;
    assert_eq!(format_relative_time(now + 5, now), "in the future");
    assert_eq!(format_relative_time(now, now), "just now");
    assert_eq!(format_relative_time(now - 59, now), "just now");
    assert_eq!(format_relative_time(now - 60, now), "1 minute ago");
    assert_eq!(format_relative_time(now - 119, now), "1 minute ago");
    assert_eq!(format_relative_time(now - 120, now), "2 minutes ago");
    assert_eq!(format_relative_time(now - 3600, now), "1 hour ago");
    assert_eq!(format_relative_time(now - 2 * 86400, now), "2 days ago");
    assert_eq!(format_relative_time(now - 7 * 86400, now), "1 week ago");
    assert_eq!(format_relative_time(now - 30 * 86400, now), "1 month ago");
    assert_eq!(format_relative_time(now - 364 * 86400, now), "12 months ago");
    assert_eq!(format_relative_time(now - 365 * 86400, now), "1 year ago");
    assert_eq!(format_relative_time(now - 3 * 365 * 86400, now), "3 years ago");
}

#[test]
fn relative_time_at_the_ends_of_the_range() {
    assert_eq!(format_relative_time(i64::MAX, i64::MIN), "in the future");
    assert_eq!(format_relative_time(i64::MIN, i64::MAX), "584942417355 years ago");
}

#[test]
fn common_prefix_of_sibling_directories() {
    let paths = vec![
        "/home/user/repo".to_string(),
        "/home/user/repo.feature".to_string(),
        "/home/user/other/deep".to_string(),
    ];
    assert_eq!(find_common_prefix(&paths), "/home/user");
}

#[test]
fn common_prefix_edge_cases() {
    assert_eq!(find_common_prefix(&Vec::new()), "");
    assert_eq!(find_common_prefix(&vec!["/a/b".to_string()]), "/a/b");
    assert_eq!(find_common_prefix(&vec!["/a/b".to_string(), "/c/d".to_string()]), "/");
    assert_eq!(find_common_prefix(&vec!["a/b".to_string(), "c/d".to_string()]), "");
    assert_eq!(find_common_prefix(&vec!["/a/bc".to_string(), "/a/b".to_string()]), "/a");
    assert_eq!(find_common_prefix(&vec!["/a//b/".to_string(), "/a/./b/c".to_string()]), "/a/b");
}

#[test]
fn shorten_path_against_prefix() {
    assert_eq!(shorten_path("/home/user/repo", "/home/user"), "./repo");
    assert_eq!(shorten_path("/home/user/repo/sub", "/home/user"), "./repo/sub");
    assert_eq!(shorten_path("/home/user", "/home/user"), ".");
    assert_eq!(shorten_path("/elsewhere/repo", "/home/user"), "/elsewhere/repo");
    assert_eq!(shorten_path("/home/username", "/home/user"), "/home/username");
    assert_eq!(shorten_path("/a/b", ""), ".//a/b");
}

#[test]
fn terminal_width_prefers_the_override() {
    assert_eq!(get_terminal_width(Some("40"), Some(120)), 40);
    assert_eq!(get_terminal_width(Some("+40"), None), 40);
    assert_eq!(get_terminal_width(Some("wide"), Some(120)), 120);
    assert_eq!(get_terminal_width(Some(""), Some(120)), 120);
    assert_eq!(get_terminal_width(Some(" 40"), Some(120)), 120);
    assert_eq!(get_terminal_width(None, Some(120)), 120);
    assert_eq!(get_terminal_width(None, None), 80);
    assert_eq!(get_terminal_width(Some("99999999999999999999999999"), None), 80);
}
