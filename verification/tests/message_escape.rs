//! The message body collection and its markdown-escaping pass.

use mcqp::parser::McqpAST;
use mcqp::message::{escape_line_of, escape_state_new, scan_line};

fn ast_of(lines: &[&str]) -> McqpAST {
    let owned: Vec<String> = lines.iter().map(|s| s.to_string()).collect();
    McqpAST::new("test.mcq".to_string(), owned)
}

fn body_of(lines: &[&str]) -> String {
    let mut ast = ast_of(lines);
    assert!(ast.parse().is_ok());
    assert_eq!(ast.message_count, 1);
    ast.mcqps[0].message.as_ref().unwrap().m.clone()
}

#[test]
fn lone_star_gets_escaped() {
    let body = body_of(&["m:( *bold", " text ):endm"]);
    assert_eq!(body, " \\*bold");
}

#[test]
fn terminator_text_is_excluded() {
    let body = body_of(&["m:(", " keep", " drop ):endm"]);
    assert_eq!(body, " keep");
}

#[test]
fn balanced_markers_pass_unchanged() {
    let body = body_of(&["m:(", "*bold* and `code` and _under_ and [link]", "):endm"]);
    assert_eq!(body, "*bold* and `code` and _under_ and [link]");
}

#[test]
fn balanced_multiline_body_unchanged() {
    let body = body_of(&["m:(", "first *line*", "second `line`", "):endm"]);
    assert_eq!(body, "first *line*\nsecond `line`");
}

#[test]
fn each_line_escapes_its_own_markers() {
    let body = body_of(&["m:(", "open *here", "open _there", "):endm"]);
    assert_eq!(body, "open \\*here\nopen \\_there");
}

#[test]
fn open_fence_gets_one_closing_fence() {
    let body = body_of(&["m:(", "```", "let x = 1;", "):endm"]);
    assert_eq!(body, "```\nlet x = 1;\n```");
}

#[test]
fn closed_fence_left_alone() {
    let body = body_of(&["m:(", "```", "code", "```", "):endm"]);
    assert_eq!(body, "```\ncode\n```");
}

#[test]
fn fence_suppresses_marker_escaping() {
    let body = body_of(&["m:(", "```", "a * b _ c", "```", "):endm"]);
    assert_eq!(body, "```\na * b _ c\n```");
}

#[test]
fn opening_line_with_terminator_has_no_body() {
    let mut ast = ast_of(&["m:( hello world ):endm"]);
    let d = ast.parse().unwrap_err();
    assert_eq!(
        d.kind,
        mcqp::diagnostics::DiagnosticKind::EmptyMessageBody
    );
}

#[test]
fn unmatched_bracket_escaped() {
    let body = body_of(&["m:(", "see [here", "):endm"]);
    assert_eq!(body, "see \\[here");
}

#[test]
fn escape_targets_last_unmatched_occurrence() {
    let body = body_of(&["m:(", "*a* *b", "):endm"]);
    assert_eq!(body, "*a* \\*b");
}

#[test]
fn scan_state_carries_fence_across_lines() {
    let st0 = escape_state_new();
    let st1 = scan_line("before ```", st0);
    assert!(st1.code_block_open);
    let (out, st2) = escape_line_of("* not toggled *", st1);
    assert_eq!(out, "* not toggled *");
    assert!(st2.code_block_open);
}

#[test]
fn escape_line_inserts_backslash() {
    let st0 = escape_state_new();
    let (out, st1) = escape_line_of("a * b", st0);
    assert_eq!(out, "a \\* b");
    assert!(!st1.star_open);
}
