//! End-to-end scenarios over the document assembler.

use mcqp::parser::{McqpAST, McqpType};

fn ast_of(lines: &[&str]) -> McqpAST {
    let owned: Vec<String> = lines.iter().map(|s| s.to_string()).collect();
    McqpAST::new("test.mcq".to_string(), owned)
}

#[test]
fn single_poll_exact_texts() {
    let mut ast = ast_of(&["p: Pick one?", " one", " two"]);
    assert!(ast.parse().is_ok());
    assert_eq!(ast.poll_count, 1);
    assert_eq!(ast.question_count, 0);
    assert_eq!(ast.message_count, 0);
    assert_eq!(ast.mcqps.len(), 1);
    assert!(matches!(ast.mcqps[0]._type, McqpType::Poll));
    let poll = ast.mcqps[0].poll.as_ref().unwrap();
    assert_eq!(poll.question(), "Pick one?");
    assert_eq!(poll.choices(), vec!["one".to_string(), "two".to_string()]);
    assert_eq!(poll.choices_len(), 2);
}

#[test]
fn question_marked_choice_wins_its_index() {
    let mut ast = ast_of(&["q: 2+2=?", " 3", " 4*"]);
    assert!(ast.parse().is_ok());
    assert_eq!(ast.question_count, 1);
    let q = ast.mcqps[0].question.as_ref().unwrap();
    assert_eq!(q.question(), "2+2=?");
    assert_eq!(q.answer(), 1);
    assert_eq!(q.choices(), vec!["3".to_string(), "4".to_string()]);
    assert_eq!(q.note(), None);
}

#[test]
fn question_with_note() {
    let mut ast = ast_of(&["q: What? <NOTE: hint>", " a*", " b"]);
    assert!(ast.parse().is_ok());
    let q = ast.mcqps[0].question.as_ref().unwrap();
    assert_eq!(q.question(), "What?");
    assert_eq!(q.note(), Some("hint".to_string()));
    assert_eq!(q.answer(), 0);
}

#[test]
fn note_without_closing_delimiter_stays_question_text() {
    let mut ast = ast_of(&["q: What? <NOTE: open ended", " a*", " b"]);
    assert!(ast.parse().is_ok());
    let q = ast.mcqps[0].question.as_ref().unwrap();
    assert_eq!(q.question(), "What? <NOTE: open ended");
    assert_eq!(q.note(), None);
}

#[test]
fn counter_prefixes_consecutively() {
    let mut ast = ast_of(&[
        "config:",
        " counter = 5",
        "p: First?",
        " a",
        " b",
        "p: Second?",
        " a",
        " b",
    ]);
    assert!(ast.parse().is_ok());
    assert_eq!(ast.poll_count, 2);
    assert_eq!(ast.mcqps[0].poll.as_ref().unwrap().question(), "[5] First?");
    assert_eq!(ast.mcqps[1].poll.as_ref().unwrap().question(), "[6] Second?");
    assert_eq!(ast.config.counter, (true, 7));
}

#[test]
fn counter_skips_messages() {
    let mut ast = ast_of(&[
        "config:",
        " counter = 1",
        "p: One?",
        " a",
        "m:(",
        " hello",
        "):endm",
        "q: Two?",
        " a*",
        " b",
    ]);
    assert!(ast.parse().is_ok());
    assert_eq!(ast.mcqps[0].poll.as_ref().unwrap().question(), "[1] One?");
    assert_eq!(ast.mcqps[2].question.as_ref().unwrap().question(), "[2] Two?");
}

#[test]
fn counter_disabled_leaves_text_unprefixed() {
    let mut ast = ast_of(&["p: Plain?", " a"]);
    assert!(ast.parse().is_ok());
    assert_eq!(ast.mcqps[0].poll.as_ref().unwrap().question(), "Plain?");
    assert_eq!(ast.config.counter, (false, 0));
}

#[test]
fn mcpoll_section_kind() {
    let mut ast = ast_of(&["mcp: Multi?", " a", " b", " c"]);
    assert!(ast.parse().is_ok());
    assert!(matches!(ast.mcqps[0]._type, McqpType::MCPoll));
    let poll = ast.mcqps[0].poll.as_ref().unwrap();
    assert!(poll.is_mcp);
    assert_eq!(poll.question(), "Multi?");
    assert_eq!(poll.choices_len(), 3);
}

#[test]
fn comments_and_blanks_are_skipped() {
    let mut ast = ast_of(&["// a comment", "", "   ", "p: Q?", " a", "  // also a comment?"]);
    // the indented comment line is an option line for the poll above
    assert!(ast.parse().is_ok());
    assert_eq!(ast.poll_count, 1);
    assert_eq!(
        ast.mcqps[0].poll.as_ref().unwrap().choices(),
        vec!["a".to_string(), "// also a comment?".to_string()]
    );
}

#[test]
fn several_sections_in_order() {
    let mut ast = ast_of(&[
        "p: P?",
        " a",
        "q: Q?",
        " x*",
        " y",
        "m:(",
        " body text",
        "):endm",
    ]);
    assert!(ast.parse().is_ok());
    assert_eq!(ast.poll_count, 1);
    assert_eq!(ast.question_count, 1);
    assert_eq!(ast.message_count, 1);
    assert!(matches!(ast.mcqps[0]._type, McqpType::Poll));
    assert!(matches!(ast.mcqps[1]._type, McqpType::Question));
    assert!(matches!(ast.mcqps[2]._type, McqpType::Message));
    assert_eq!(ast.mcqps[2].message.as_ref().unwrap().m, " body text");
}

#[test]
fn trailing_section_header_is_rewound_and_dispatched() {
    // the question header is the last line: the options loop consumes it as
    // lookahead, rewinds, and the assembler still dispatches it
    let mut ast = ast_of(&["p: Q?", " a", "q: X"]);
    let d = ast.parse().unwrap_err();
    assert_eq!(d.kind, mcqp::diagnostics::DiagnosticKind::InvalidOptionCount);
    assert_eq!(d.line_number, 3);
    assert_eq!(ast.poll_count, 1);
    assert_eq!(ast.mcqps.len(), 1);
}

#[test]
fn option_text_is_trimmed_only() {
    let mut ast = ast_of(&["p: Q?", "   spaced out   ", " \t tabbed \t"]);
    assert!(ast.parse().is_ok());
    let poll = ast.mcqps[0].poll.as_ref().unwrap();
    assert_eq!(
        poll.choices(),
        vec!["spaced out".to_string(), "tabbed".to_string()]
    );
}

#[test]
fn last_marked_choice_wins() {
    let mut ast = ast_of(&["q: Q?", " a*", " b*", " c"]);
    assert!(ast.parse().is_ok());
    let q = ast.mcqps[0].question.as_ref().unwrap();
    assert_eq!(q.answer(), 1);
    assert_eq!(
        q.choices(),
        vec!["a".to_string(), "b".to_string(), "c".to_string()]
    );
}
