//! Stream framing, line splitting, and artifact accumulation.

use codegen_pipeline::artifact::{accumulate, accumulate_fragments, Accumulator};
use codegen_pipeline::event::{format_data_line, is_sentinel, split_lines, strip_data_prefix};

#[test]
fn accumulate_concatenates_in_order() {
    let tokens = vec![String::from("t1"), String::from("t2"), String::from("t3")];
    assert_eq!(accumulate(&tokens), "t1t2t3");
}

#[test]
fn accumulate_empty_is_empty() {
    let tokens: Vec<String> = vec![];
    assert_eq!(accumulate(&tokens), "");
}

#[test]
fn sentinel_is_never_appended() {
    let tokens = vec![
        String::from("a"),
        String::from("__DOWNLOAD__"),
        String::from("b"),
    ];
    assert_eq!(accumulate(&tokens), "a");
}

#[test]
fn sentinel_first_yields_empty_artifact() {
    let tokens = vec![String::from("__DOWNLOAD__"), String::from("late")];
    assert_eq!(accumulate(&tokens), "");
}

#[test]
fn push_token_stops_at_sentinel() {
    let mut acc = Accumulator::new();
    acc.push_token("fn ");
    acc.push_token("__DOWNLOAD__");
    acc.push_token("main");
    assert_eq!(acc.text, "fn ");
    assert!(acc.finished);
}

#[test]
fn malformed_fragment_is_skipped() {
    let frags = vec![
        Some(String::from("fn ")),
        None,
        Some(String::from("main(){}")),
    ];
    assert_eq!(accumulate_fragments(&frags), "fn main(){}");
}

#[test]
fn is_sentinel_exact_match_only() {
    assert!(is_sentinel("__DOWNLOAD__"));
    assert!(!is_sentinel("__DOWNLOAD"));
    assert!(!is_sentinel("data:__DOWNLOAD__"));
    assert!(!is_sentinel(""));
}

#[test]
fn data_line_round_trip() {
    let line = format_data_line("hello world");
    assert_eq!(line, "data:hello world");
    assert_eq!(strip_data_prefix(&line), Some(String::from("hello world")));
}

#[test]
fn strip_data_prefix_rejects_other_lines() {
    assert_eq!(strip_data_prefix("noise"), None);
    assert_eq!(strip_data_prefix("dat"), None);
    assert_eq!(strip_data_prefix(""), None);
    assert_eq!(strip_data_prefix("data:"), Some(String::new()));
}

#[test]
fn split_lines_handles_both_endings() {
    let r = split_lines("a\r\nb\nc");
    assert_eq!(r, vec!["a", "b", "c"]);
}

#[test]
fn split_lines_trailing_newline_adds_no_line() {
    let r = split_lines("one\ntwo\n");
    assert_eq!(r, vec!["one", "two"]);
}

#[test]
fn split_lines_empty_and_blank() {
    assert_eq!(split_lines(""), Vec::<String>::new());
    assert_eq!(split_lines("\n"), vec![""]);
    assert_eq!(split_lines("a\rb"), vec!["a\rb"]);
}
