use linewise_replace::sizer::{count_occurrences, window_size};

fn chars(text: &str) -> Vec<char> {
    text.chars().collect()
}

#[test]
fn pattern_without_escape_has_window_one() {
    assert_eq!(window_size("abc"), 1);
    assert_eq!(window_size(""), 1);
    assert_eq!(window_size("a\nb"), 1);
}

#[test]
fn one_newline_escape_gives_window_two() {
    assert_eq!(window_size("a\\nb"), 2);
    assert_eq!(window_size("a\\rb"), 2);
    assert_eq!(window_size("\\u{000B}"), 2);
    assert_eq!(window_size("\\u{000C}"), 2);
}

#[test]
fn window_is_one_more_than_the_escapes() {
    assert_eq!(window_size("a\\nb\\nc"), 3);
    assert_eq!(window_size("\\u{2028}x\\u{2029}\\n"), 4);
    assert_eq!(window_size("\\n\\n\\n\\n"), 5);
}

#[test]
fn carriage_return_line_feed_counts_for_each_form() {
    assert_eq!(window_size("a\\r\\nb"), 4);
}

#[test]
fn occurrences_do_not_overlap() {
    assert_eq!(count_occurrences(&chars("aaaa"), &chars("aa")), 2);
    assert_eq!(count_occurrences(&chars("aaa"), &chars("aa")), 1);
    assert_eq!(count_occurrences(&chars("abab"), &chars("ab")), 2);
    assert_eq!(count_occurrences(&chars("ab"), &chars("abc")), 0);
    assert_eq!(count_occurrences(&chars("abc"), &chars("")), 0);
}

#[test]
fn occurrences_agree_with_str_matches() {
    for (text, needle) in [("a\\nb\\n", "\\n"), ("xxxx", "xx"), ("\\r\\n\\r", "\\r"), ("", "a")] {
        assert_eq!(count_occurrences(&chars(text), &chars(needle)), text.matches(needle).count());
    }
}
