//! One input for every diagnostic the parser can raise, with its position.

use mcqp::parser::McqpAST;
use mcqp::diagnostics::DiagnosticKind;

fn ast_of(lines: &[&str]) -> McqpAST {
    let owned: Vec<String> = lines.iter().map(|s| s.to_string()).collect();
    McqpAST::new("test.mcq".to_string(), owned)
}

#[test]
fn unknown_keyword() {
    let mut ast = ast_of(&["hello there"]);
    let d = ast.parse().unwrap_err();
    assert_eq!(d.kind, DiagnosticKind::UnknownKeyword);
    assert_eq!(d.line_number, 1);
    assert_eq!(d.column, 0);
    assert_eq!(d.line, "hello there");
    assert_eq!(ast.mcqps.len(), 0);
}

#[test]
fn invalid_header_missing_question() {
    let mut ast = ast_of(&["p:", " a"]);
    let d = ast.parse().unwrap_err();
    assert_eq!(d.kind, DiagnosticKind::InvalidHeader);
    assert_eq!(d.line_number, 1);
    assert_eq!(d.column, 2);
}

#[test]
fn invalid_question_length() {
    let long = "x".repeat(256);
    let header = format!("p: {}", long);
    let mut ast = ast_of(&[header.as_str(), " a"]);
    let d = ast.parse().unwrap_err();
    assert_eq!(d.kind, DiagnosticKind::InvalidQuestionLength);
    assert_eq!(d.line_number, 1);
}

#[test]
fn invalid_note_length() {
    let mut ast = ast_of(&["q: Q? <NOTE: >", " a*", " b"]);
    let d = ast.parse().unwrap_err();
    assert_eq!(d.kind, DiagnosticKind::InvalidNoteLength);
    assert_eq!(d.line_number, 1);
}

#[test]
fn invalid_option_length_points_at_the_line() {
    let long = format!("  {}", "y".repeat(101));
    let mut ast = ast_of(&["p: Q?", " a", long.as_str(), " never read"]);
    let d = ast.parse().unwrap_err();
    assert_eq!(d.kind, DiagnosticKind::InvalidOptionLength);
    assert_eq!(d.line_number, 3);
    assert_eq!(d.column, 2);
    assert_eq!(d.line, long);
    assert_eq!(ast.mcqps.len(), 0);
}

#[test]
fn invalid_option_count_too_few() {
    let mut ast = ast_of(&["p: Q?"]);
    let d = ast.parse().unwrap_err();
    assert_eq!(d.kind, DiagnosticKind::InvalidOptionCount);
    assert_eq!(d.line_number, 1);
}

#[test]
fn invalid_option_count_too_many() {
    let mut lines = vec!["p: Q?".to_string()];
    for i in 0..11 {
        lines.push(format!(" choice {}", i));
    }
    let borrowed: Vec<&str> = lines.iter().map(|s| s.as_str()).collect();
    let mut ast = ast_of(&borrowed);
    let d = ast.parse().unwrap_err();
    assert_eq!(d.kind, DiagnosticKind::InvalidOptionCount);
}

#[test]
fn invalid_option_count_missing_answer() {
    let mut ast = ast_of(&["q: Q?", " a", " b"]);
    let d = ast.parse().unwrap_err();
    assert_eq!(d.kind, DiagnosticKind::InvalidOptionCount);
}

#[test]
fn question_needs_two_choices() {
    let mut ast = ast_of(&["q: Q?", " a*"]);
    let d = ast.parse().unwrap_err();
    assert_eq!(d.kind, DiagnosticKind::InvalidOptionCount);
}

#[test]
fn counter_overflow_on_long_question() {
    let q = "x".repeat(253);
    let header = format!("p: {}", q);
    let mut ast = ast_of(&["config:", " counter = 5", header.as_str(), " a"]);
    let d = ast.parse().unwrap_err();
    assert_eq!(d.kind, DiagnosticKind::CounterOverflow);
    assert_eq!(d.line_number, 3);
}

#[test]
fn counter_prefix_just_fits() {
    // 251 question chars + "[5] " is exactly 255
    let q = "x".repeat(251);
    let header = format!("p: {}", q);
    let mut ast = ast_of(&["config:", " counter = 5", header.as_str(), " a"]);
    assert!(ast.parse().is_ok());
    let question = ast.mcqps[0].poll.as_ref().unwrap().question();
    assert_eq!(question.chars().count(), 255);
    assert!(question.starts_with("[5] x"));
}

#[test]
fn invalid_counter_value() {
    let mut ast = ast_of(&["config:", " counter = abc"]);
    let d = ast.parse().unwrap_err();
    assert_eq!(d.kind, DiagnosticKind::InvalidCounterValue);
    assert_eq!(d.line_number, 2);
    assert_eq!(d.column, 11);
}

#[test]
fn unknown_config_feature() {
    let mut ast = ast_of(&["config:", " shuffle = on"]);
    let d = ast.parse().unwrap_err();
    assert_eq!(d.kind, DiagnosticKind::UnknownConfigFeature);
    assert_eq!(d.line_number, 2);
    assert_eq!(d.column, 1);
}

#[test]
fn missing_assignment_operator() {
    let mut ast = ast_of(&["config:", " counter 5"]);
    let d = ast.parse().unwrap_err();
    assert_eq!(d.kind, DiagnosticKind::MissingAssignmentOperator);
    assert_eq!(d.line_number, 2);
    assert_eq!(d.column, 10);
}

#[test]
fn failing_config_line_keeps_earlier_assignments() {
    let mut ast = ast_of(&["config:", " counter = 4", " counter = bad"]);
    let d = ast.parse().unwrap_err();
    assert_eq!(d.kind, DiagnosticKind::InvalidCounterValue);
    assert_eq!(d.line_number, 3);
    // the first assignment already took effect
    assert_eq!(ast.config.counter, (true, 4));
}

#[test]
fn error_in_a_section_appends_nothing() {
    let long = format!("  {}", "y".repeat(101));
    let mut ast = ast_of(&["p: ok?", " a", "p: bad?", long.as_str()]);
    let d = ast.parse().unwrap_err();
    assert_eq!(d.kind, DiagnosticKind::InvalidOptionLength);
    assert_eq!(ast.mcqps.len(), 1);
    assert_eq!(ast.poll_count, 1);
}

#[test]
fn unterminated_message_block() {
    let mut ast = ast_of(&["m:(", "still talking"]);
    let d = ast.parse().unwrap_err();
    assert_eq!(d.kind, DiagnosticKind::UnterminatedMessageBlock);
    assert_eq!(d.line_number, 1);
}

#[test]
fn empty_message_body() {
    let mut ast = ast_of(&["m:():endm"]);
    let d = ast.parse().unwrap_err();
    assert_eq!(d.kind, DiagnosticKind::EmptyMessageBody);
    assert_eq!(d.line_number, 1);
}

#[test]
fn first_error_wins_and_keeps_the_valid_prefix() {
    let mut ast = ast_of(&["p: Q?", " a", "oops", "also bad"]);
    let d = ast.parse().unwrap_err();
    assert_eq!(d.kind, DiagnosticKind::UnknownKeyword);
    assert_eq!(d.line_number, 3);
    // the poll before the error was valid and stays; the bad line adds nothing
    assert_eq!(ast.mcqps.len(), 1);
    assert_eq!(ast.poll_count, 1);
}

#[test]
fn counter_value_overflowing_usize_is_invalid() {
    let mut ast = ast_of(&["config:", " counter = 99999999999999999999999999"]);
    let d = ast.parse().unwrap_err();
    assert_eq!(d.kind, DiagnosticKind::InvalidCounterValue);
}
