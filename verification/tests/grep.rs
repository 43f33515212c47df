use rlm::env::EvalState;
use rlm::grep::{grep_content, grep_report, GREP_MAX_MATCHES};
use rlm::text::char_slice;

#[test]
fn hits_are_shown_with_their_offsets() {
    assert_eq!(grep_content("c", Some("alpha\n  beta \ngamma"), "a$|beta"), "@0: alpha\n@6: beta\n@14: gamma\n");
    assert_eq!(grep_content("c", Some("ä\nab"), "b"), "@2: ab\n");
}

#[test]
fn without_a_hit_it_is_said_so() {
    assert_eq!(grep_content("c", Some("abc"), "x"), "(no matches)");
    assert_eq!(grep_content("c", Some(""), "x"), "(no matches)");
}

#[test]
fn a_bad_pattern_is_answered_first() {
    let e = regex::Regex::new("(").unwrap_err().to_string();
    assert_eq!(grep_content("c", Some("abc"), "("), format!("[error] bad regex: {e}"));
    assert_eq!(grep_content("c", None, "("), format!("[error] bad regex: {e}"));
}

#[test]
fn a_missing_context_is_named() {
    assert_eq!(grep_content("c", None, "x"), "[error] no context named 'c'");
}

#[test]
fn long_lines_are_cut_and_many_hits_counted() {
    let line = "x".repeat(241);
    let content = format!("{line}\n").repeat(83);
    let out = grep_content("c", Some(&content), "x");
    assert_eq!(out.matches("@").count(), GREP_MAX_MATCHES);
    assert!(out.starts_with(&format!("@0: {}\n...[truncated 240 of 241 chars]\n@242: ", "x".repeat(240))));
    assert!(out.ends_with("...(3 more matches not shown)\n"));
}

#[test]
fn a_report_goes_by_what_matched() {
    let lines = vec!["one".to_string(), "two".to_string(), "three".to_string()];
    let starts = vec![0, 4, 9];
    assert_eq!(grep_report(&lines, &starts, &vec![false, true, true]), "@4: two\n@9: three\n");
    assert_eq!(grep_report(&lines, &starts, &vec![false, false, false]), "(no matches)");
}

#[test]
fn a_hit_can_be_read_at_its_offset() {
    let content = "first line\nsecond line\n\nläst line";
    let state = EvalState::new(vec![("doc".to_string(), content.to_string())], false);
    let report = state.grep("doc", "line");
    assert_eq!(report, "@0: first line\n@11: second line\n@24: läst line\n");
    assert_eq!(char_slice(content, 11, 11), "second line");
    assert_eq!(state.peek("doc", 24, 9), "läst line");
}

#[test]
fn offsets_count_both_characters_of_a_line_end() {
    assert_eq!(grep_content("c", Some("a\r\nb"), "b"), "@3: b\n");
    let content = "one\r\ntwo\n\r\nthrée\r\nfour\r\n";
    let state = EvalState::new(vec![("doc".to_string(), content.to_string())], false);
    assert_eq!(state.grep("doc", "o"), "@0: one\n@5: two\n@18: four\n");
    assert_eq!(state.peek("doc", 0, 3), "one");
    assert_eq!(state.peek("doc", 5, 3), "two");
    assert_eq!(state.peek("doc", 18, 4), "four");
    assert_eq!(state.grep("doc", "é"), "@11: thrée\n");
}
