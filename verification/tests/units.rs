//! The smaller pieces: the cursor, the file-kind check, the text helpers,
//! the section types' own methods, and the diagnostics formatter.

use mcqp::file::{state, FileReader, FileState};
use mcqp::text::{trim_of, parse_decimal, decimal_string, decimal_string_i64, count_leading_of};
use mcqp::grammar::{classify, LineKind, line_ends_message, line_is_option, split_note};
use mcqp::poll::Poll;
use mcqp::question::Question;
use mcqp::config::Config;
use mcqp::message::Message;
use mcqp::display::{Display, DisplaySyntaxError};
use mcqp::bot::{BotResult, Chat, Message as ChatMessage};
use mcqp::log::Log;

#[test]
fn file_state_classifies_paths() {
    assert_eq!(state("dir/quiz.mcq".to_string(), true), FileState::McqpFile);
    assert_eq!(state("quiz.mcq".to_string(), true), FileState::McqpFile);
    assert_eq!(state("quiz.txt".to_string(), true), FileState::NotMcqpFile);
    assert_eq!(state("noext".to_string(), true), FileState::NotMcqpFile);
    assert_eq!(state(".mcq".to_string(), true), FileState::NotMcqpFile);
    assert_eq!(state("a/b/c.tar.mcq".to_string(), true), FileState::McqpFile);
    assert_eq!(state("quiz.mcq".to_string(), false), FileState::NotFound);
}

#[test]
fn reader_walks_and_rewinds_once() {
    let mut r = FileReader::new(vec!["a".to_string(), "b".to_string()]);
    assert_eq!(r.get_line_number(), 0);
    assert_eq!(r.next_line(), Some("a".to_string()));
    assert_eq!(r.get_line_number(), 1);
    assert_eq!(r.back_to_previous(), Some(true));
    assert_eq!(r.next_line(), Some("a".to_string()));
    assert_eq!(r.next_line(), Some("b".to_string()));
    // the last line was just consumed, so the rewind still works
    assert_eq!(r.back_to_previous(), Some(true));
    assert_eq!(r.next_line(), Some("b".to_string()));
    assert_eq!(r.next_line(), None);
}

#[test]
fn rewind_needs_a_consumed_line() {
    let mut r = FileReader::new(vec!["a".to_string()]);
    assert_eq!(r.back_to_previous(), None);
    assert_eq!(r.next_line(), Some("a".to_string()));
}

#[test]
fn trimming_and_counting() {
    assert_eq!(trim_of("  hello  "), "hello");
    assert_eq!(trim_of("\t x \t"), "x");
    assert_eq!(trim_of(""), "");
    assert_eq!(trim_of("   "), "");
    assert_eq!(count_leading_of("   abc", ' '), 3);
    assert_eq!(count_leading_of("abc", ' '), 0);
}

#[test]
fn decimal_round_trip() {
    assert_eq!(decimal_string(0), "0");
    assert_eq!(decimal_string(1234), "1234");
    assert_eq!(parse_decimal("0"), Some(0));
    assert_eq!(parse_decimal("987"), Some(987));
    assert_eq!(parse_decimal(""), None);
    assert_eq!(parse_decimal("12a"), None);
    assert_eq!(parse_decimal("99999999999999999999999999"), None);
}

#[test]
fn classification_covers_every_keyword() {
    assert_eq!(classify("// note"), LineKind::Comment);
    assert_eq!(classify("   // indented note"), LineKind::Comment);
    assert_eq!(classify(""), LineKind::Blank);
    assert_eq!(classify("   "), LineKind::Blank);
    assert_eq!(classify("p: q"), LineKind::PollStart);
    assert_eq!(classify("q: q"), LineKind::QuestionStart);
    assert_eq!(classify("mcp: q"), LineKind::McPollStart);
    assert_eq!(classify("config:"), LineKind::ConfigStart);
    assert_eq!(classify("m:( hi"), LineKind::MessageStart);
    assert_eq!(classify("what"), LineKind::Unknown);
    assert_eq!(classify(" stray option"), LineKind::Unknown);
    assert!(line_ends_message("text ):endm"));
    assert!(!line_ends_message("text"));
    assert!(line_is_option(" a"));
    assert!(!line_is_option("a"));
    assert!(!line_is_option("   "));
}

#[test]
fn split_note_variants() {
    assert_eq!(
        split_note("What? <NOTE: hint>"),
        ("What?".to_string(), Some("hint".to_string()))
    );
    assert_eq!(split_note("Plain"), ("Plain".to_string(), None));
    assert_eq!(
        split_note("What? <NOTE: no close"),
        ("What? <NOTE: no close".to_string(), None)
    );
}

#[test]
fn poll_methods() {
    let mut p = Poll::new();
    p.parse_question("p:  Favourite?  ", 2);
    assert_eq!(p.question(), "Favourite?");
    assert!(p.is_question_valid());
    p.parse_option("  tea  ");
    assert!(p.is_last_option_valid());
    p.parse_option(" coffee");
    assert!(p.is_options_valid());
    assert_eq!(p.choices(), vec!["tea".to_string(), "coffee".to_string()]);
    assert!(p.add_count(7));
    assert_eq!(p.question(), "[7] Favourite?");
}

#[test]
fn poll_add_count_refuses_overflow() {
    let mut p = Poll::new();
    let header = format!("p: {}", "x".repeat(253));
    p.parse_question(&header, 2);
    assert!(!p.add_count(5));
    assert_eq!(p.question().chars().count(), 253);
}

#[test]
fn question_methods() {
    let mut q = Question::new();
    q.parse_question("q: Pick <NOTE: think>");
    assert_eq!(q.question(), "Pick");
    assert_eq!(q.question_len(), 4);
    assert!(q.is_note());
    assert!(q.is_note_valid());
    assert_eq!(q.note(), Some("think".to_string()));
    q.parse_option(" first");
    assert_eq!(q.answer(), -1);
    q.parse_option(" second *");
    assert_eq!(q.answer(), 1);
    assert!(q.is_options_valid());
    assert_eq!(q.choices(), vec!["first".to_string(), "second".to_string()]);
}

#[test]
fn config_parses_counter_line() {
    let mut c = Config::new();
    assert_eq!(c.counter, (false, 0));
    assert!(c.parse(" counter = 42").is_ok());
    assert_eq!(c.counter, (true, 42));
    assert!(c.parse(" counter = nope").is_err());
    assert_eq!(c.counter, (true, 42));
}

#[test]
fn message_validity() {
    let m = Message::new();
    assert!(!m.is_valid());
}

#[test]
fn log_keeps_its_name() {
    let l = Log::new("parser");
    assert_eq!(l.name, "parser");
}

#[test]
fn signed_decimal_rendering() {
    assert_eq!(decimal_string_i64(0), "0");
    assert_eq!(decimal_string_i64(42), "42");
    assert_eq!(decimal_string_i64(-42), "-42");
    assert_eq!(decimal_string_i64(i64::MIN), "-9223372036854775808");
}

#[test]
fn bot_info_layout() {
    let info = BotResult {
        id: 7,
        first_name: "Quiz".to_string(),
        username: "quiz_bot".to_string(),
    };
    assert_eq!(
        Display::bot_info(&info),
        "ID: 7\nName: Quiz\nUsername: quiz_bot\n"
    );
}

#[test]
fn bot_chat_info_layout() {
    let message = ChatMessage {
        chat: Chat {
            id: -100,
            first_name: "Class".to_string(),
            username: "class_chat".to_string(),
            _type: "group".to_string(),
        },
        text: "hello".to_string(),
    };
    assert_eq!(
        Display::bot_chat_info(&message),
        "Chat ID: -100\nName: Class\nUsername: class_chat\nMessage: hello\nChat Type: group\n"
    );
}

#[test]
fn error_report_layout() {
    let r = DisplaySyntaxError::error("boom", "here", "f.mcq", "xline", 12, 3);
    assert_eq!(
        r,
        "ERROR: boom\n    --> f.mcq:12:3\n    |\n 12 | xline\n    |    ^ here\n\n"
    );
}

#[test]
fn fix_report_layout() {
    let r = DisplaySyntaxError::fix_add("comment it", "xline", "//", 3, 0);
    assert_eq!(r, "FIX: comment it\n   |\n 3 | //xline\n   | ++\n\n");
}
