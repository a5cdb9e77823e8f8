use linewise_replace::escape::{check_string, decode_replacement, InvalidEscape};
use linewise_replace::plan::{assemble, prepare, PlanError};
use linewise_replace::replace::{replace_in_file, replace_in_file_whole_file};
use linewise_replace::window::{
    advance, first_window_len, part_window, replace_in_file_line_by_line, replace_window,
    ReplaceError, WindowStep,
};
use regex::Regex;

fn owned(lines: &[&str]) -> Vec<String> {
    lines.iter().map(|line| line.to_string()).collect()
}

fn pattern(source: &str) -> Regex {
    Regex::new(source).unwrap()
}

#[test]
fn single_line_scenario() {
    let re = pattern("foo");
    assert_eq!(
        replace_in_file_line_by_line(owned(&["foo", "bar"]), &re, "baz", 1),
        Ok("baz\nbar\n".to_string())
    );
    assert_eq!(replace_in_file("foo\nbar\n", &re, "baz", 1), "baz\nbar\n");
    assert_eq!(replace_in_file_whole_file("foo\nbar\n", &re, "baz"), "baz\nbar\n");
}

#[test]
fn embedded_newline_scenario_over_the_whole_content() {
    let re = pattern("a\\nb");
    assert_eq!(linewise_replace::sizer::window_size("a\\nb"), 2);
    assert_eq!(replace_in_file_whole_file("a\nb\nc\n", &re, "X"), "X\nc\n");
}

#[test]
fn embedded_newline_scenario_in_a_window() {
    let re = pattern("a\\nb");
    assert_eq!(
        replace_in_file_line_by_line(owned(&["a", "b", "c"]), &re, "X", 2),
        Ok("X\nc".to_string())
    );
    assert_eq!(replace_in_file("a\nb\nc", &re, "X", 2), "X\nc");
    assert_eq!(replace_in_file_whole_file("a\nb\nc", &re, "X"), "X\nc");
}

#[test]
fn no_double_substitution() {
    let re = pattern(" ");
    assert_eq!(
        replace_in_file_line_by_line(owned(&[" "]), &re, "  ", 1),
        Ok("  \n".to_string())
    );
    assert_eq!(
        replace_in_file_line_by_line(owned(&[" ", " ", " "]), &re, "  ", 1),
        Ok("  \n  \n  \n".to_string())
    );
    assert_eq!(replace_in_file(" \n", &re, "  ", 1), "  \n");
}

#[test]
fn structural_failure_falls_back_to_the_whole_content() {
    let re = pattern(" +");
    let contents = "a b\nc d\ne f";
    assert_eq!(
        replace_in_file_line_by_line(owned(&["a b", "c d", "e f"]), &re, "$0 ", 2),
        Err(ReplaceError::StructuralFailure)
    );
    let ground_truth = replace_in_file_whole_file(contents, &re, "$0 ");
    assert_eq!(ground_truth, "a  b\nc  d\ne  f");
    assert_eq!(replace_in_file(contents, &re, "$0 ", 2), ground_truth);
}

#[test]
fn structural_failure_across_a_line_end() {
    let re = pattern(" \\n ");
    assert_eq!(
        replace_in_file_line_by_line(owned(&["a ", " b"]), &re, " \n  ", 2),
        Err(ReplaceError::StructuralFailure)
    );
    assert_eq!(replace_in_file("a \n b", &re, " \n  ", 2), "a \n  b");
}

#[test]
fn single_line_windows_are_never_checked_again() {
    let re = pattern(" +");
    assert_eq!(
        replace_in_file_line_by_line(owned(&["a b"]), &re, "$0 ", 1),
        Ok("a  b\n".to_string())
    );
}

#[test]
fn empty_source_gives_empty_output() {
    let re = pattern("x");
    for w in [0, 1, 2, 5] {
        assert_eq!(replace_in_file_line_by_line(Vec::new(), &re, "y", w), Ok(String::new()));
        assert_eq!(replace_in_file("", &re, "y", w), "");
    }
}

#[test]
fn window_of_nothing_reads_nothing() {
    let re = pattern("a");
    assert_eq!(replace_in_file_line_by_line(owned(&["a", "a"]), &re, "b", 0), Ok(String::new()));
}

#[test]
fn source_shorter_than_the_first_window() {
    let re = pattern("b\\nc");
    assert_eq!(
        replace_in_file_line_by_line(owned(&["a", "b", "c"]), &re, "-", 2),
        Ok("a\n-".to_string())
    );
}

#[test]
fn match_across_two_windows_is_found() {
    let re = pattern("d\\ne");
    let lines = owned(&["a", "b", "c", "d", "e", "f", "g"]);
    assert_eq!(
        replace_in_file_line_by_line(lines, &re, "-", 2),
        Ok("a\nb\nc\n-\nf\ng".to_string())
    );
    assert_eq!(replace_in_file_whole_file("a\nb\nc\nd\ne\nf\ng", &re, "-"), "a\nb\nc\n-\nf\ng");
}

#[test]
fn windowed_output_equals_whole_content_output() {
    let re = pattern("x\\ny");
    let contents = "x\ny\n1\n2\nx\ny\n3\n4\n5\nx\ny\n6\nx\ny";
    assert_eq!(linewise_replace::sizer::window_size("x\\ny"), 2);
    assert_eq!(
        replace_in_file(contents, &re, "<$0>", 2),
        replace_in_file_whole_file(contents, &re, "<$0>")
    );
    let single = pattern("[0-9]");
    let terminated = "1a\n22\nb\n";
    assert_eq!(
        replace_in_file(terminated, &single, "#", 1),
        replace_in_file_whole_file(terminated, &single, "#")
    );
}

#[test]
fn end_of_source_is_kept_exact() {
    let re = pattern("q");
    assert_eq!(replace_in_file("a\nb\nc", &re, "-", 2), "a\nb\nc");
    assert_eq!(replace_in_file("a\nb\n", &re, "-", 1), "a\nb\n");
    assert_eq!(replace_in_file_whole_file("a\nb", &re, "-"), "a\nb");
    assert_eq!(replace_in_file_whole_file("a\nb\n", &re, "-"), "a\nb\n");
}

#[test]
fn replacement_may_add_lines() {
    let re = pattern(",");
    assert_eq!(
        replace_in_file_line_by_line(owned(&["a,b", "c"]), &re, "\n", 1),
        Ok("a\nb\nc\n".to_string())
    );
}

#[test]
fn first_window_is_one_line_or_twice_the_size() {
    assert_eq!(first_window_len(0), 0);
    assert_eq!(first_window_len(1), 1);
    assert_eq!(first_window_len(2), 4);
    assert_eq!(first_window_len(7), 14);
    assert_eq!(first_window_len(usize::MAX / 2), usize::MAX - 1);
    assert_eq!(first_window_len(usize::MAX / 2 + 1), usize::MAX);
    assert_eq!(first_window_len(usize::MAX), usize::MAX);
}

#[test]
fn substituted_window_is_parted_by_size() {
    let outcome = part_window("a\nb\nc\nd", 3);
    assert_eq!(outcome.confirmed, owned(&["a"]));
    assert_eq!(outcome.pending, owned(&["b", "c", "d"]));
    let all_pending = part_window("a\nb", 2);
    assert_eq!(all_pending.confirmed, Vec::<String>::new());
    assert_eq!(all_pending.pending, owned(&["a", "b"]));
    let all_confirmed = part_window("a\nb\n", 1);
    assert_eq!(all_confirmed.confirmed, owned(&["a", "b", ""]));
    assert_eq!(all_confirmed.pending, Vec::<String>::new());
    let nothing_held = part_window("a\nb", 0);
    assert_eq!(nothing_held.confirmed, owned(&["a", "b"]));
    assert_eq!(nothing_held.pending, Vec::<String>::new());
}

#[test]
fn windows_of_several_lines_end_without_separator() {
    let re = pattern("a\\nb");
    assert_eq!(replace_in_file("a\nb\nc\n", &re, "X", 2), "X\nc");
    assert_eq!(
        replace_in_file_line_by_line(owned(&["a", "b", "c", ""]), &re, "X", 2),
        Ok("X\nc\n".to_string())
    );
}

#[test]
fn windows_of_one_line_end_with_separator() {
    let re = pattern("foo");
    assert_eq!(replace_in_file("foo\nbar", &re, "baz", 1), "baz\nbar\n");
}

#[test]
fn window_keeps_the_last_lines_pending() {
    let re = pattern("b");
    let outcome = replace_window(&owned(&["a", "b", "c", "d", "e"]), &re, "B", 2).unwrap();
    assert_eq!(outcome.confirmed, owned(&["a", "B", "c"]));
    assert_eq!(outcome.pending, owned(&["d", "e"]));
    let short = replace_window(&owned(&["a", "b"]), &re, "B", 3).unwrap();
    assert_eq!(short.confirmed, Vec::<String>::new());
    assert_eq!(short.pending, owned(&["a", "B"]));
}

#[test]
fn window_of_one_line_keeps_nothing_pending() {
    let re = pattern("b");
    let outcome = replace_window(&owned(&["abc"]), &re, "\n", 1).unwrap();
    assert_eq!(outcome.confirmed, owned(&["a", "c"]));
    assert_eq!(outcome.pending, Vec::<String>::new());
}

#[test]
fn window_fails_where_the_pattern_matches_again() {
    let re = pattern("a+");
    assert!(matches!(
        replace_window(&owned(&["a", "b"]), &re, "aa", 2),
        Err(ReplaceError::StructuralFailure)
    ));
    assert!(replace_window(&owned(&["a", "b"]), &re, "aa", 1).is_ok());
}

#[test]
fn advance_ends_or_opens_the_next_window() {
    match advance(owned(&["x", "y"]), Vec::new()) {
        WindowStep::Finished(tail) => assert_eq!(tail, "x\ny"),
        WindowStep::Continue(_) => panic!("the source was exhausted"),
    }
    match advance(owned(&["x"]), owned(&["y", "z"])) {
        WindowStep::Continue(buffer) => assert_eq!(buffer, owned(&["x", "y", "z"])),
        WindowStep::Finished(_) => panic!("the source had more lines"),
    }
    match advance(Vec::new(), Vec::new()) {
        WindowStep::Finished(tail) => assert_eq!(tail, ""),
        WindowStep::Continue(_) => panic!("the source was exhausted"),
    }
}

#[test]
fn structural_failure_in_words() {
    assert_eq!(
        ReplaceError::StructuralFailure.message(),
        "Cross-line match found, please use the whole file replacement method"
    );
}

#[test]
fn replacement_escapes_are_decoded() {
    assert_eq!(decode_replacement("a\\nb"), Ok("a\nb".to_string()));
    assert_eq!(decode_replacement("\\t$1"), Ok("\t$1".to_string()));
    assert_eq!(decode_replacement("plain"), Ok("plain".to_string()));
    assert_eq!(decode_replacement("\\u0041"), Ok("A".to_string()));
}

#[test]
fn invalid_replacement_escape_is_rejected() {
    assert_eq!(decode_replacement("\\q"), Err(InvalidEscape));
    assert_eq!(decode_replacement("tail\\"), Err(InvalidEscape));
}

#[test]
fn every_pattern_source_passes_the_check() {
    assert_eq!(check_string("a\\nb"), Ok(()));
    assert_eq!(check_string("\\"), Ok(()));
}

#[test]
fn whole_content_substitution_expands_groups() {
    let re = pattern("(\\w+)@(\\w+)");
    assert_eq!(replace_in_file_whole_file("me@here", &re, "$2@$1"), "here@me");
}

#[test]
fn plan_holds_pattern_replacement_and_window() {
    let plan = prepare("a\\nb", "X\\n$0").unwrap();
    assert_eq!(plan.pattern.as_str(), "a\\nb");
    assert_eq!(plan.replacement, "X\n$0");
    assert_eq!(plan.max_line_number, 2);
    assert_eq!(
        replace_in_file("a\nb\nc", &plan.pattern, &plan.replacement, plan.max_line_number),
        "X\na\nb\nc"
    );
}

#[test]
fn plan_rejects_an_invalid_pattern() {
    assert!(matches!(prepare("foo(bar", "x"), Err(PlanError::InvalidPattern(_))));
}

#[test]
fn plan_rejects_an_invalid_replacement_first() {
    assert!(matches!(prepare("foo", "\\q"), Err(PlanError::InvalidReplacement)));
    assert!(matches!(prepare("foo(bar", "\\q"), Err(PlanError::InvalidReplacement)));
}

#[test]
fn plan_is_assembled_from_its_parts() {
    let plan = assemble(3, Ok("r".to_string()), Regex::new("p")).unwrap();
    assert_eq!(plan.pattern.as_str(), "p");
    assert_eq!(plan.replacement, "r");
    assert_eq!(plan.max_line_number, 3);
    assert!(matches!(
        assemble(3, Err(InvalidEscape), Regex::new("p")),
        Err(PlanError::InvalidReplacement)
    ));
    match assemble(3, Ok("r".to_string()), Regex::new("(")) {
        Err(PlanError::InvalidPattern(reason)) => {
            assert_eq!(Some(reason), Regex::new("(").err())
        }
        _ => panic!("the pattern did not compile"),
    }
}
