//! The limits the format names: emptiness, and the largest sizes a section
//! may take.

use mcqp::parser::McqpAST;

fn ast_of(lines: &[&str]) -> McqpAST {
    let owned: Vec<String> = lines.iter().map(|s| s.to_string()).collect();
    McqpAST::new("test.mcq".to_string(), owned)
}

#[test]
fn empty_input_is_an_empty_document() {
    let mut ast = ast_of(&[]);
    assert!(ast.parse().is_ok());
    assert_eq!(ast.mcqps.len(), 0);
    assert_eq!(ast.poll_count, 0);
    assert_eq!(ast.question_count, 0);
    assert_eq!(ast.message_count, 0);
}

#[test]
fn comments_only_is_an_empty_document() {
    let mut ast = ast_of(&["// nothing", "", "// here"]);
    assert!(ast.parse().is_ok());
    assert_eq!(ast.mcqps.len(), 0);
}

#[test]
fn ten_options_is_accepted() {
    let mut lines = vec!["p: Q?".to_string()];
    for i in 0..10 {
        lines.push(format!(" choice {}", i));
    }
    let borrowed: Vec<&str> = lines.iter().map(|s| s.as_str()).collect();
    let mut ast = ast_of(&borrowed);
    assert!(ast.parse().is_ok());
    assert_eq!(ast.mcqps[0].poll.as_ref().unwrap().choices_len(), 10);
}

#[test]
fn one_option_poll_is_accepted() {
    let mut ast = ast_of(&["p: Q?", " only"]);
    assert!(ast.parse().is_ok());
    assert_eq!(ast.mcqps[0].poll.as_ref().unwrap().choices_len(), 1);
}

#[test]
fn option_of_exactly_100_chars_is_accepted() {
    let option = format!(" {}", "z".repeat(100));
    let mut ast = ast_of(&["p: Q?", option.as_str()]);
    assert!(ast.parse().is_ok());
    let choices = ast.mcqps[0].poll.as_ref().unwrap().choices();
    assert_eq!(choices[0].chars().count(), 100);
}

#[test]
fn question_of_exactly_255_chars_is_accepted() {
    let header = format!("p: {}", "q".repeat(255));
    let mut ast = ast_of(&[header.as_str(), " a"]);
    assert!(ast.parse().is_ok());
    assert_eq!(
        ast.mcqps[0].poll.as_ref().unwrap().question().chars().count(),
        255
    );
}

#[test]
fn note_of_exactly_200_chars_is_accepted() {
    let header = format!("q: Q? <NOTE: {}>", "n".repeat(200));
    let mut ast = ast_of(&[header.as_str(), " a*", " b"]);
    assert!(ast.parse().is_ok());
    let note = ast.mcqps[0].question.as_ref().unwrap().note().unwrap();
    assert_eq!(note.chars().count(), 200);
}

#[test]
fn counter_zero_is_a_valid_start() {
    let mut ast = ast_of(&["config:", " counter = 0", "p: Q?", " a"]);
    assert!(ast.parse().is_ok());
    assert_eq!(ast.mcqps[0].poll.as_ref().unwrap().question(), "[0] Q?");
    assert_eq!(ast.config.counter, (true, 1));
}

#[test]
fn later_config_block_renumbers() {
    let mut ast = ast_of(&[
        "config:",
        " counter = 9",
        "p: A?",
        " a",
        "config:",
        " counter = 100",
        "p: B?",
        " a",
    ]);
    assert!(ast.parse().is_ok());
    assert_eq!(ast.mcqps[0].poll.as_ref().unwrap().question(), "[9] A?");
    assert_eq!(ast.mcqps[1].poll.as_ref().unwrap().question(), "[100] B?");
}

#[test]
fn message_of_single_space_is_nonempty() {
    let mut ast = ast_of(&["m:(", " ", "):endm"]);
    assert!(ast.parse().is_ok());
    assert_eq!(ast.mcqps[0].message.as_ref().unwrap().m, " ");
}
