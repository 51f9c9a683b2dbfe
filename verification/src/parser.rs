//! The document assembler: drives the top-level loop over the lines,
//! dispatches to the section parsers, and owns the auto-numbering counter.
//! The whole parse is pinned to the `sp_parse_from` model below: either the
//! full section list comes back, or the first fatal diagnostic.

use vstd::prelude::*;
use crate::text::trimmed;
use crate::grammar::{
    classify_line,
    LineKind,
    header_rest,
    question_parts,
    is_option_line,
    is_poll_start,
    is_mcpoll_start,
    is_question_start,
    is_message_start,
};
use crate::text::count_leading;
use crate::poll::{Poll, with_counter};
use crate::question::{Question, question_option_parts};
use crate::message::{Message, sp_parse_message};
use crate::config::{Config, sp_config_block};
use crate::diagnostics::{Diagnostic, DiagnosticKind, SpDiagnostic};
use crate::file::FileReader;

verus! {

/// The .mcq sections types.
#[derive(PartialEq, Eq, Structural, Clone, Copy, Debug)]
pub enum McqpType {
    /// Poll section
    Poll,
    /// Question section
    Question,
    /// Multiple choice poll section
    MCPoll,
    /// Message section
    Message,
}

/// A poll section at the specification level.
pub struct SpPoll {
    pub question: Seq<char>,
    pub choices: Seq<Seq<char>>,
    pub is_mcp: bool,
}

/// A question section at the specification level.
pub struct SpQuestion {
    pub question: Seq<char>,
    pub choices: Seq<Seq<char>>,
    pub answer: int,
    pub note: Option<Seq<char>>,
}

/// One document entry at the specification level.
pub enum SpSection {
    Poll(SpPoll),
    Question(SpQuestion),
    Message(Seq<char>),
}

/// A fully parsed document at the specification level.  On a failed parse
/// the same shape describes the partial document assembled before the
/// diagnostic: the sections of an invalid section are never appended.
pub struct SpDoc {
    pub sections: Seq<SpSection>,
    pub poll_count: int,
    pub question_count: int,
    pub message_count: int,
    pub counter: (bool, usize),
}

/// The document with nothing parsed yet.
pub open spec fn sp_empty_doc(counter: (bool, usize)) -> SpDoc {
    SpDoc { sections: Seq::empty(), poll_count: 0, question_count: 0, message_count: 0, counter }
}

/// One section put in front of a document, with its count.
pub open spec fn sp_doc_prepend(s: SpSection, doc: SpDoc) -> SpDoc {
    SpDoc {
        sections: seq![s] + doc.sections,
        poll_count: doc.poll_count + if s is Poll {
            1int
        } else {
            0int
        },
        question_count: doc.question_count + if s is Question {
            1int
        } else {
            0int
        },
        message_count: doc.message_count + if s is Message {
            1int
        } else {
            0int
        },
        counter: doc.counter,
    }
}

/// What collecting a poll's option lines from index `i` yields: the trimmed
/// texts and the resume position, or the first over-long option.
pub enum SpOptScan {
    Fail { line_number: int, column: int, line: Seq<char> },
    Good { choices: Seq<Seq<char>>, next: int },
}

pub open spec fn sp_poll_options(lines: Seq<Seq<char>>, i: int) -> SpOptScan
    decreases lines.len() - i,
{
    if i < 0 || i >= lines.len() {
        SpOptScan::Good { choices: Seq::empty(), next: i }
    } else if !is_option_line(lines[i]) {
        SpOptScan::Good { choices: Seq::empty(), next: i }
    } else {
        let t = trimmed(lines[i]);
        if !(1 <= t.len() <= 100) {
            SpOptScan::Fail {
                line_number: i + 1,
                column: count_leading(lines[i], ' '),
                line: lines[i],
            }
        } else {
            match sp_poll_options(lines, i + 1) {
                SpOptScan::Fail { line_number, column, line } => SpOptScan::Fail {
                    line_number,
                    column,
                    line,
                },
                SpOptScan::Good { choices, next } => SpOptScan::Good {
                    choices: seq![t] + choices,
                    next,
                },
            }
        }
    }
}

pub proof fn lemma_sp_poll_options_bounds(lines: Seq<Seq<char>>, i: int)
    requires
        0 <= i <= lines.len(),
    ensures
        match sp_poll_options(lines, i) {
            SpOptScan::Good { choices, next } => i <= next <= lines.len(),
            SpOptScan::Fail { .. } => true,
        },
    decreases lines.len() - i,
{
    if i < lines.len() && is_option_line(lines[i]) && 1 <= trimmed(lines[i]).len() <= 100 {
        lemma_sp_poll_options_bounds(lines, i + 1);
    }
}

/// Like `sp_poll_options`, with the trailing `*` recognition: the fold also
/// carries the answer index, the last marked choice winning.
pub enum SpQOptScan {
    Fail { line_number: int, column: int, line: Seq<char> },
    Good { choices: Seq<Seq<char>>, answer: int, next: int },
}

pub open spec fn sp_question_options(lines: Seq<Seq<char>>, i: int) -> SpQOptScan
    decreases lines.len() - i,
{
    if i < 0 || i >= lines.len() {
        SpQOptScan::Good { choices: Seq::empty(), answer: -1, next: i }
    } else if !is_option_line(lines[i]) {
        SpQOptScan::Good { choices: Seq::empty(), answer: -1, next: i }
    } else {
        let parts = question_option_parts(lines[i]);
        if !(1 <= parts.0.len() <= 100) {
            SpQOptScan::Fail {
                line_number: i + 1,
                column: count_leading(lines[i], ' '),
                line: lines[i],
            }
        } else {
            match sp_question_options(lines, i + 1) {
                SpQOptScan::Fail { line_number, column, line } => SpQOptScan::Fail {
                    line_number,
                    column,
                    line,
                },
                SpQOptScan::Good { choices, answer, next } => SpQOptScan::Good {
                    choices: seq![parts.0] + choices,
                    answer: if answer != -1 {
                        answer + 1
                    } else if parts.1 {
                        0
                    } else {
                        -1
                    },
                    next,
                },
            }
        }
    }
}

pub proof fn lemma_sp_question_options_bounds(lines: Seq<Seq<char>>, i: int)
    requires
        0 <= i <= lines.len(),
    ensures
        match sp_question_options(lines, i) {
            SpQOptScan::Good { choices, answer, next } => i <= next <= lines.len() && -1 <= answer
                < choices.len(),
            SpQOptScan::Fail { .. } => true,
        },
    decreases lines.len() - i,
{
    if i < lines.len() && is_option_line(lines[i]) && 1 <= question_option_parts(
        lines[i],
    ).0.len() <= 100 {
        lemma_sp_question_options_bounds(lines, i + 1);
    }
}

/// One poll section, header at index `i`: header captures, fail-fast option
/// collection, count bound, counter prefixing.
pub open spec fn sp_poll_section(
    lines: Seq<Seq<char>>,
    i: int,
    is_mcp: bool,
    counter: (bool, usize),
) -> Result<(SpPoll, int, (bool, usize)), SpDiagnostic> {
    let header = lines[i];
    let ln = i + 1;
    let q = header_rest(
        header,
        if is_mcp {
            4
        } else {
            2
        },
    );
    if q.len() < 1 {
        Err(
            SpDiagnostic {
                kind: DiagnosticKind::InvalidHeader,
                line: header,
                line_number: ln,
                column: header.len() as int,
            },
        )
    } else if q.len() > 255 {
        Err(
            SpDiagnostic {
                kind: DiagnosticKind::InvalidQuestionLength,
                line: header,
                line_number: ln,
                column: 0,
            },
        )
    } else {
        match sp_poll_options(lines, i + 1) {
            SpOptScan::Fail { line_number, column, line } => Err(
                SpDiagnostic {
                    kind: DiagnosticKind::InvalidOptionLength,
                    line,
                    line_number,
                    column,
                },
            ),
            SpOptScan::Good { choices, next } => {
                if !(1 <= choices.len() <= 10) {
                    Err(
                        SpDiagnostic {
                            kind: DiagnosticKind::InvalidOptionCount,
                            line: header,
                            line_number: ln,
                            column: 0,
                        },
                    )
                } else if counter.0 {
                    if with_counter(counter.1 as nat, q).len() > 255 || counter.1 == usize::MAX {
                        Err(
                            SpDiagnostic {
                                kind: DiagnosticKind::CounterOverflow,
                                line: header,
                                line_number: ln,
                                column: 0,
                            },
                        )
                    } else {
                        Ok(
                            (
                                SpPoll {
                                    question: with_counter(counter.1 as nat, q),
                                    choices,
                                    is_mcp,
                                },
                                next,
                                (true, (counter.1 + 1) as usize),
                            ),
                        )
                    }
                } else {
                    Ok((SpPoll { question: q, choices, is_mcp }, next, counter))
                }
            },
        }
    }
}

/// One question section, header at index `i`.
pub open spec fn sp_question_section(
    lines: Seq<Seq<char>>,
    i: int,
    counter: (bool, usize),
) -> Result<(SpQuestion, int, (bool, usize)), SpDiagnostic> {
    let header = lines[i];
    let ln = i + 1;
    let parts = question_parts(header_rest(header, 2));
    let q = parts.0;
    let note = parts.1;
    if q.len() < 1 {
        Err(
            SpDiagnostic {
                kind: DiagnosticKind::InvalidHeader,
                line: header,
                line_number: ln,
                column: header.len() as int,
            },
        )
    } else if q.len() > 255 {
        Err(
            SpDiagnostic {
                kind: DiagnosticKind::InvalidQuestionLength,
                line: header,
                line_number: ln,
                column: 0,
            },
        )
    } else if note is Some && !(1 <= note->Some_0.len() <= 200) {
        Err(
            SpDiagnostic {
                kind: DiagnosticKind::InvalidNoteLength,
                line: header,
                line_number: ln,
                column: 0,
            },
        )
    } else {
        match sp_question_options(lines, i + 1) {
            SpQOptScan::Fail { line_number, column, line } => Err(
                SpDiagnostic {
                    kind: DiagnosticKind::InvalidOptionLength,
                    line,
                    line_number,
                    column,
                },
            ),
            SpQOptScan::Good { choices, answer, next } => {
                if !(2 <= choices.len() <= 10 && answer != -1) {
                    Err(
                        SpDiagnostic {
                            kind: DiagnosticKind::InvalidOptionCount,
                            line: header,
                            line_number: ln,
                            column: 0,
                        },
                    )
                } else if counter.0 {
                    if with_counter(counter.1 as nat, q).len() > 255 || counter.1 == usize::MAX {
                        Err(
                            SpDiagnostic {
                                kind: DiagnosticKind::CounterOverflow,
                                line: header,
                                line_number: ln,
                                column: 0,
                            },
                        )
                    } else {
                        Ok(
                            (
                                SpQuestion {
                                    question: with_counter(counter.1 as nat, q),
                                    choices,
                                    answer,
                                    note,
                                },
                                next,
                                (true, (counter.1 + 1) as usize),
                            ),
                        )
                    }
                } else {
                    Ok((SpQuestion { question: q, choices, answer, note }, next, counter))
                }
            },
        }
    }
}

pub proof fn lemma_sp_config_block_bounds(lines: Seq<Seq<char>>, i: int, counter: (bool, usize))
    requires
        0 <= i <= lines.len(),
    ensures
        match sp_config_block(lines, i, counter) {
            Ok((c2, next)) => i <= next <= lines.len(),
            Err(_) => true,
        },
    decreases lines.len() - i,
{
    if i < lines.len() && is_option_line(lines[i]) {
        match crate::config::sp_config_line(lines[i], counter) {
            Ok(c2) => lemma_sp_config_block_bounds(lines, i + 1, c2),
            Err(_) => {},
        }
    }
}

pub proof fn lemma_sp_message_lines_bounds(
    lines: Seq<Seq<char>>,
    i: int,
    st: crate::message::EscapeState,
)
    requires
        0 <= i <= lines.len(),
    ensures
        match crate::message::sp_message_lines(lines, i, st) {
            crate::message::SpMsgScan::Done { raw, st: s2, next } => i + 1 <= next <= lines.len(),
            crate::message::SpMsgScan::Unterminated => true,
        },
    decreases lines.len() - i,
{
    if i < lines.len() && !crate::grammar::is_message_end(lines[i]) {
        let e = crate::message::escape_line(lines[i], st);
        lemma_sp_message_lines_bounds(lines, i + 1, e.1);
    }
}

/// `sp_parse_message` never resumes before the opening line.
pub proof fn lemma_sp_parse_message_bounds(lines: Seq<Seq<char>>, i: int, start_line: Seq<char>)
    requires
        0 <= i <= lines.len(),
    ensures
        match sp_parse_message(lines, i, start_line) {
            Ok((body, next)) => i <= next <= lines.len(),
            Err(_) => true,
        },
{
    let rem = start_line.skip(3);
    if !crate::grammar::is_message_end(rem) {
        let head = if rem.len() > 0 {
            let e = crate::message::escape_line(rem, crate::message::initial_escape_state());
            (e.0.push('\n'), e.1)
        } else {
            (Seq::<char>::empty(), crate::message::initial_escape_state())
        };
        lemma_sp_message_lines_bounds(lines, i, head.1);
    }
}

/// The top-level state machine as a fold over the lines: from index `i`
/// with the given counter state, the rest of the document or the first
/// diagnostic.
pub open spec fn sp_parse_from(lines: Seq<Seq<char>>, i: int, counter: (bool, usize)) -> Result<
    SpDoc,
    (SpDiagnostic, SpDoc),
>
    decreases lines.len() - i,
    when 0 <= i <= lines.len()
    via sp_parse_from_dec
{
    if i >= lines.len() {
        Ok(sp_empty_doc(counter))
    } else {
        match classify_line(lines[i]) {
            LineKind::Comment => sp_parse_from(lines, i + 1, counter),
            LineKind::Blank => sp_parse_from(lines, i + 1, counter),
            LineKind::PollStart => match sp_poll_section(lines, i, false, counter) {
                Err(d) => Err((d, sp_empty_doc(counter))),
                Ok((p, next, c2)) => match sp_parse_from(lines, next, c2) {
                    Err((d, doc)) => Err((d, sp_doc_prepend(SpSection::Poll(p), doc))),
                    Ok(doc) => Ok(sp_doc_prepend(SpSection::Poll(p), doc)),
                },
            },
            LineKind::McPollStart => match sp_poll_section(lines, i, true, counter) {
                Err(d) => Err((d, sp_empty_doc(counter))),
                Ok((p, next, c2)) => match sp_parse_from(lines, next, c2) {
                    Err((d, doc)) => Err((d, sp_doc_prepend(SpSection::Poll(p), doc))),
                    Ok(doc) => Ok(sp_doc_prepend(SpSection::Poll(p), doc)),
                },
            },
            LineKind::QuestionStart => match sp_question_section(lines, i, counter) {
                Err(d) => Err((d, sp_empty_doc(counter))),
                Ok((qn, next, c2)) => match sp_parse_from(lines, next, c2) {
                    Err((d, doc)) => Err((d, sp_doc_prepend(SpSection::Question(qn), doc))),
                    Ok(doc) => Ok(sp_doc_prepend(SpSection::Question(qn), doc)),
                },
            },
            LineKind::ConfigStart => match sp_config_block(lines, i + 1, counter) {
                Err((d, c)) => Err((d, sp_empty_doc(c))),
                Ok((c2, next)) => sp_parse_from(lines, next, c2),
            },
            LineKind::MessageStart => match sp_parse_message(lines, i + 1, lines[i]) {
                Err(d) => Err((d, sp_empty_doc(counter))),
                Ok((body, next)) => match sp_parse_from(lines, next, counter) {
                    Err((d, doc)) => Err((d, sp_doc_prepend(SpSection::Message(body), doc))),
                    Ok(doc) => Ok(sp_doc_prepend(SpSection::Message(body), doc)),
                },
            },
            LineKind::Unknown => Err(
                (
                    SpDiagnostic {
                        kind: DiagnosticKind::UnknownKeyword,
                        line: lines[i],
                        line_number: i + 1,
                        column: 0,
                    },
                    sp_empty_doc(counter),
                ),
            ),
        }
    }
}

#[via_fn]
proof fn sp_parse_from_dec(lines: Seq<Seq<char>>, i: int, counter: (bool, usize)) {
    if 0 <= i < lines.len() {
        lemma_sp_poll_options_bounds(lines, i + 1);
        lemma_sp_question_options_bounds(lines, i + 1);
        lemma_sp_config_block_bounds(lines, i + 1, counter);
        lemma_sp_parse_message_bounds(lines, i + 1, lines[i]);
    }
}

/// The .mcq section tree: exactly one of the three payloads is filled, as
/// `_type` says.
pub struct Mcqp {
    /// The section type.
    pub _type: McqpType,
    /// The poll information.
    pub poll: Option<Poll>,
    /// The question information.
    pub question: Option<Question>,
    /// The message information.
    pub message: Option<Message>,
}

impl Mcqp {
    /// The section this entry stands for, at the specification level.
    pub open spec fn sp(self) -> SpSection {
        match self._type {
            McqpType::Poll => SpSection::Poll(
                SpPoll {
                    question: self.poll->Some_0.question@,
                    choices: self.poll->Some_0.choices.deep_view(),
                    is_mcp: false,
                },
            ),
            McqpType::MCPoll => SpSection::Poll(
                SpPoll {
                    question: self.poll->Some_0.question@,
                    choices: self.poll->Some_0.choices.deep_view(),
                    is_mcp: true,
                },
            ),
            McqpType::Question => SpSection::Question(
                SpQuestion {
                    question: self.question->Some_0.question@,
                    choices: self.question->Some_0.choices.deep_view(),
                    answer: self.question->Some_0.answer as int,
                    note: match self.question->Some_0.note {
                        Some(n) => Some(n@),
                        None => None,
                    },
                },
            ),
            McqpType::Message => SpSection::Message(self.message->Some_0.m@),
        }
    }

    /// An entry is exactly one variant, never a hybrid: the payload named
    /// by `_type` is filled, the other two are empty, and a poll's own
    /// multi-choice flag agrees with its type.
    pub open spec fn wf(self) -> bool {
        match self._type {
            McqpType::Poll => self.poll is Some && self.question is None && self.message is None
                && !self.poll->Some_0.is_mcp,
            McqpType::MCPoll => self.poll is Some && self.question is None && self.message is None
                && self.poll->Some_0.is_mcp,
            McqpType::Question => self.question is Some && self.poll is None && self.message
                is None,
            McqpType::Message => self.message is Some && self.poll is None && self.question
                is None,
        }
    }
}

/// How many entries are polls (single- or multi-choice).
pub open spec fn polls_in(v: Seq<Mcqp>) -> int
    decreases v.len(),
{
    if v.len() == 0 {
        0
    } else {
        let here: int = if v.last()._type == McqpType::Poll || v.last()._type
            == McqpType::MCPoll {
            1
        } else {
            0
        };
        polls_in(v.drop_last()) + here
    }
}

/// How many entries are questions.
pub open spec fn questions_in(v: Seq<Mcqp>) -> int
    decreases v.len(),
{
    if v.len() == 0 {
        0
    } else {
        let here: int = if v.last()._type == McqpType::Question {
            1
        } else {
            0
        };
        questions_in(v.drop_last()) + here
    }
}

/// How many entries are messages.
pub open spec fn messages_in(v: Seq<Mcqp>) -> int
    decreases v.len(),
{
    if v.len() == 0 {
        0
    } else {
        let here: int = if v.last()._type == McqpType::Message {
            1
        } else {
            0
        };
        messages_in(v.drop_last()) + here
    }
}

/// The sections a list of entries stands for.
pub open spec fn sections_of(v: Seq<Mcqp>) -> Seq<SpSection> {
    Seq::new(v.len(), |j: int| v[j].sp())
}

/// The .mcq sections tree list: the document being assembled, the running
/// counts, the counter config, and the cursor.
pub struct McqpAST {
    /// The number of polls in the list.
    pub poll_count: usize,
    /// The number of questions in the list.
    pub question_count: usize,
    /// The number of messages in the list.
    pub message_count: usize,
    /// The list of polls, questions and messages.
    pub mcqps: Vec<Mcqp>,
    /// The MCQP features.
    pub config: Config,
    /// The file path, kept for diagnostics.
    pub file_path: String,
    /// The file reader.
    pub file_reader: FileReader,
}

impl McqpAST {
    /// A fresh assembler over the file's lines.  The caller owns reading the
    /// file; a failure there is its own, reported before parsing starts.
    pub fn new(file_path: String, lines: Vec<String>) -> (r: McqpAST)
        ensures
            r.poll_count == 0,
            r.question_count == 0,
            r.message_count == 0,
            r.mcqps@ == Seq::<Mcqp>::empty(),
            r.config.counter == (false, 0usize),
            r.file_path == file_path,
            r.file_reader.lines == lines,
            r.file_reader.current_position == 0,
    {
        McqpAST {
            poll_count: 0,
            question_count: 0,
            message_count: 0,
            mcqps: Vec::new(),
            config: Config::new(),
            file_path,
            file_reader: FileReader::new(lines),
        }
    }

    /// The Poll header and the Poll options parser.  The header line was
    /// just consumed; on success the built poll stands appended and the
    /// cursor rests on the first line after the section.
    pub fn parse_poll(&mut self, header_line: &str, is_mcpoll: bool, header_line_number: usize) -> (
    r: Result<(), Diagnostic>)
        requires
            1 <= old(self).file_reader.current_position <= old(self).file_reader.lines@.len(),
            header_line@ == old(self).file_reader.lines@[old(
                self,
            ).file_reader.current_position as int - 1]@,
            header_line_number == old(self).file_reader.current_position,
            is_mcpoll ==> is_mcpoll_start(header_line@),
            !is_mcpoll ==> is_poll_start(header_line@),
            old(self).poll_count + old(self).question_count + old(self).message_count < old(
                self,
            ).file_reader.current_position,
        ensures
            final(self).file_reader.lines == old(self).file_reader.lines,
            final(self).file_path == old(self).file_path,
            match sp_poll_section(
                old(self).file_reader.lines.deep_view(),
                old(self).file_reader.current_position as int - 1,
                is_mcpoll,
                old(self).config.counter,
            ) {
                Err(d) => {
                    &&& r is Err
                    &&& r->Err_0@ == d
                    &&& final(self).mcqps == old(self).mcqps
                    &&& final(self).poll_count == old(self).poll_count
                    &&& final(self).question_count == old(self).question_count
                    &&& final(self).message_count == old(self).message_count
                    &&& final(self).config == old(self).config
                },
                Ok((p, next, c2)) => {
                    &&& r is Ok
                    &&& final(self).mcqps@.len() == old(self).mcqps@.len() + 1
                    &&& final(self).mcqps@.take(old(self).mcqps@.len() as int) == old(self).mcqps@
                    &&& final(self).mcqps@.last().sp() == SpSection::Poll(p)
                    &&& final(self).mcqps@.last().wf()
                    &&& final(self).poll_count == old(self).poll_count + 1
                    &&& final(self).question_count == old(self).question_count
                    &&& final(self).message_count == old(self).message_count
                    &&& final(self).config.counter == c2
                    &&& final(self).file_reader.current_position == next
                    &&& old(self).file_reader.current_position <= final(self).file_reader.current_position
                    &&& final(self).file_reader.current_position <= old(
                        self,
                    ).file_reader.lines@.len()
                },
            },
    {
        let ghost lines = old(self).file_reader.lines.deep_view();
        let ghost i = old(self).file_reader.current_position as int - 1;
        let mut poll = Poll::new();
        poll.is_mcp = is_mcpoll;
        let prefix_len: usize = if is_mcpoll {
            4
        } else {
            2
        };
        poll.parse_question(header_line, prefix_len);
        if poll.question.as_str().unicode_len() == 0 {
            let col = header_line.unicode_len();
            return Err(
                Diagnostic::new(
                    DiagnosticKind::InvalidHeader,
                    String::from_str(header_line),
                    header_line_number,
                    col,
                ),
            );
        }
        if !poll.is_question_valid() {
            return Err(
                Diagnostic::new(
                    DiagnosticKind::InvalidQuestionLength,
                    String::from_str(header_line),
                    header_line_number,
                    0,
                ),
            );
        }
        loop
            invariant_except_break
                i + 1 <= self.file_reader.current_position as int <= lines.len(),
                match sp_poll_options(lines, self.file_reader.current_position as int) {
                    SpOptScan::Fail { line_number, column, line } => sp_poll_options(lines, i + 1)
                        == (SpOptScan::Fail { line_number, column, line }),
                    SpOptScan::Good { choices, next } => sp_poll_options(lines, i + 1) == (
                    SpOptScan::Good { choices: poll.choices.deep_view() + choices, next }),
                },
            invariant
                self.file_reader.lines == old(self).file_reader.lines,
                self.file_reader.lines.deep_view() == lines,
                self.mcqps == old(self).mcqps,
                self.poll_count == old(self).poll_count,
                self.question_count == old(self).question_count,
                self.message_count == old(self).message_count,
                self.config == old(self).config,
                self.file_path == old(self).file_path,
                poll.question@ == header_rest(header_line@, prefix_len as int),
                poll.is_mcp == is_mcpoll,
                prefix_len == if is_mcpoll { 4usize } else { 2usize },
                1 <= poll.question@.len() <= 255,
                0 <= i,
                i == old(self).file_reader.current_position - 1,
                lines.len() == old(self).file_reader.lines@.len(),
                header_line@ == lines[i],
                header_line_number == i + 1,
            ensures
                sp_poll_options(lines, i + 1) == (SpOptScan::Good {
                    choices: poll.choices.deep_view(),
                    next: self.file_reader.current_position as int,
                }),
                i < self.file_reader.current_position as int <= lines.len(),
            decreases lines.len() - self.file_reader.current_position,
        {
            let ghost pos = self.file_reader.current_position as int;
            let ghost deep_old = poll.choices.deep_view();
            match self.file_reader.next_line() {
                None => {
                    proof {
                        assert(sp_poll_options(lines, pos) == (SpOptScan::Good {
                            choices: Seq::<Seq<char>>::empty(),
                            next: pos,
                        }));
                        assert(poll.choices.deep_view() + Seq::<Seq<char>>::empty()
                            =~= poll.choices.deep_view());
                    }
                    break ;
                },
                Some(line) => {
                    proof {
                        assert(line@ == lines[pos]);
                    }
                    if crate::grammar::line_is_option(line.as_str()) {
                        poll.parse_option(line.as_str());
                        if !poll.is_last_option_valid() {
                            let ln = self.file_reader.get_line_number();
                            let col = crate::text::count_leading_of(line.as_str(), ' ');
                            proof {
                                assert(poll.choices.deep_view().last() == trimmed(lines[pos]));
                                assert(sp_poll_options(lines, pos) == (SpOptScan::Fail {
                                    line_number: pos + 1,
                                    column: count_leading(lines[pos], ' '),
                                    line: lines[pos],
                                }));
                            }
                            return Err(
                                Diagnostic::new(DiagnosticKind::InvalidOptionLength, line, ln, col),
                            );
                        }
                        proof {
                            let t = trimmed(lines[pos]);
                            assert(poll.choices.deep_view().last() == t);
                            assert(poll.choices.deep_view()[poll.choices@.len() - 1]
                                == poll.choices@[poll.choices@.len() - 1]@);
                            assert(1 <= t.len() <= 100);
                            assert(is_option_line(lines[pos]));
                            assert(poll.choices.deep_view() =~= deep_old.push(t));
                            match sp_poll_options(lines, pos + 1) {
                                SpOptScan::Fail { line_number, column, line } => {
                                    assert(sp_poll_options(lines, pos) == (SpOptScan::Fail {
                                        line_number,
                                        column,
                                        line,
                                    }));
                                },
                                SpOptScan::Good { choices, next } => {
                                    assert(sp_poll_options(lines, pos) == (SpOptScan::Good {
                                        choices: seq![t] + choices,
                                        next,
                                    }));
                                    assert(deep_old + (seq![t] + choices) =~= (deep_old.push(t))
                                        + choices);
                                },
                            }
                        }
                    } else {
                        proof {
                            assert(!is_option_line(lines[pos]));
                            assert(sp_poll_options(lines, pos) == (SpOptScan::Good {
                                choices: Seq::<Seq<char>>::empty(),
                                next: pos,
                            }));
                            assert(poll.choices.deep_view() + Seq::<Seq<char>>::empty()
                                =~= poll.choices.deep_view());
                        }
                        self.file_reader.back_to_previous();
                        break ;
                    }
                },
            }
        }
        if !poll.is_options_valid() {
            return Err(
                Diagnostic::new(
                    DiagnosticKind::InvalidOptionCount,
                    String::from_str(header_line),
                    header_line_number,
                    0,
                ),
            );
        }
        if self.config.counter.0 {
            let v = self.config.counter.1;
            if !poll.add_count(v) {
                return Err(
                    Diagnostic::new(
                        DiagnosticKind::CounterOverflow,
                        String::from_str(header_line),
                        header_line_number,
                        0,
                    ),
                );
            }
            if v == usize::MAX {
                return Err(
                    Diagnostic::new(
                        DiagnosticKind::CounterOverflow,
                        String::from_str(header_line),
                        header_line_number,
                        0,
                    ),
                );
            }
            self.config.counter = (true, v + 1);
        }
        self.poll_count += 1;
        let ghost mcqps_old = self.mcqps@;
        self.mcqps.push(
            Mcqp {
                _type: if is_mcpoll {
                    McqpType::MCPoll
                } else {
                    McqpType::Poll
                },
                poll: Some(poll),
                question: None,
                message: None,
            },
        );
        proof {
            assert(self.mcqps@.take(mcqps_old.len() as int) =~= mcqps_old);
        }
        Ok(())
    }

    /// The Question header and the Question options parser.  Mirrors the
    /// poll parser, with the note capture and the correct-answer mark.
    pub fn parse_question(&mut self, header_line: &str, header_line_number: usize) -> (r: Result<
        (),
        Diagnostic,
    >)
        requires
            1 <= old(self).file_reader.current_position <= old(self).file_reader.lines@.len(),
            header_line@ == old(self).file_reader.lines@[old(
                self,
            ).file_reader.current_position as int - 1]@,
            header_line_number == old(self).file_reader.current_position,
            is_question_start(header_line@),
            old(self).poll_count + old(self).question_count + old(self).message_count < old(
                self,
            ).file_reader.current_position,
        ensures
            final(self).file_reader.lines == old(self).file_reader.lines,
            final(self).file_path == old(self).file_path,
            match sp_question_section(
                old(self).file_reader.lines.deep_view(),
                old(self).file_reader.current_position as int - 1,
                old(self).config.counter,
            ) {
                Err(d) => {
                    &&& r is Err
                    &&& r->Err_0@ == d
                    &&& final(self).mcqps == old(self).mcqps
                    &&& final(self).poll_count == old(self).poll_count
                    &&& final(self).question_count == old(self).question_count
                    &&& final(self).message_count == old(self).message_count
                    &&& final(self).config == old(self).config
                },
                Ok((qn, next, c2)) => {
                    &&& r is Ok
                    &&& final(self).mcqps@.len() == old(self).mcqps@.len() + 1
                    &&& final(self).mcqps@.take(old(self).mcqps@.len() as int) == old(self).mcqps@
                    &&& final(self).mcqps@.last().sp() == SpSection::Question(qn)
                    &&& final(self).mcqps@.last().wf()
                    &&& final(self).mcqps@.last()._type == McqpType::Question
                    &&& final(self).poll_count == old(self).poll_count
                    &&& final(self).question_count == old(self).question_count + 1
                    &&& final(self).message_count == old(self).message_count
                    &&& final(self).config.counter == c2
                    &&& final(self).file_reader.current_position == next
                    &&& old(self).file_reader.current_position <= final(self).file_reader.current_position
                    &&& final(self).file_reader.current_position <= old(
                        self,
                    ).file_reader.lines@.len()
                },
            },
    {
        let ghost lines = old(self).file_reader.lines.deep_view();
        let ghost i = old(self).file_reader.current_position as int - 1;
        let mut question = Question::new();
        question.parse_question(header_line);
        if question.question.as_str().unicode_len() == 0 {
            let col = header_line.unicode_len();
            return Err(
                Diagnostic::new(
                    DiagnosticKind::InvalidHeader,
                    String::from_str(header_line),
                    header_line_number,
                    col,
                ),
            );
        }
        if !question.is_question_valid() {
            return Err(
                Diagnostic::new(
                    DiagnosticKind::InvalidQuestionLength,
                    String::from_str(header_line),
                    header_line_number,
                    0,
                ),
            );
        }
        if !question.is_note_valid() {
            return Err(
                Diagnostic::new(
                    DiagnosticKind::InvalidNoteLength,
                    String::from_str(header_line),
                    header_line_number,
                    0,
                ),
            );
        }
        let ghost mut ans_pre: int = -1;
        loop
            invariant_except_break
                i + 1 <= self.file_reader.current_position as int <= lines.len(),
                match sp_question_options(lines, self.file_reader.current_position as int) {
                    SpQOptScan::Fail { line_number, column, line } => sp_question_options(
                        lines,
                        i + 1,
                    ) == (SpQOptScan::Fail { line_number, column, line }),
                    SpQOptScan::Good { choices, answer, next } => sp_question_options(lines, i + 1)
                        == (SpQOptScan::Good {
                        choices: question.choices.deep_view() + choices,
                        answer: if answer != -1 {
                            question.choices@.len() + answer
                        } else {
                            ans_pre
                        },
                        next,
                    }),
                },
            invariant
                self.file_reader.lines == old(self).file_reader.lines,
                self.file_reader.lines.deep_view() == lines,
                self.mcqps == old(self).mcqps,
                self.poll_count == old(self).poll_count,
                self.question_count == old(self).question_count,
                self.message_count == old(self).message_count,
                self.config == old(self).config,
                self.file_path == old(self).file_path,
                question.question@ == question_parts(header_rest(header_line@, 2)).0,
                question.note is Some <==> question_parts(header_rest(header_line@, 2)).1
                    is Some,
                question.note is Some ==> question.note->Some_0@ == question_parts(
                    header_rest(header_line@, 2),
                ).1->Some_0,
                1 <= question.question@.len() <= 255,
                question.note is Some ==> 1 <= question.note->Some_0@.len() <= 200,
                -1 <= ans_pre < question.choices@.len(),
                question.choices@.len() <= 127 ==> question.answer as int == ans_pre,
                0 <= i,
                i == old(self).file_reader.current_position - 1,
                lines.len() == old(self).file_reader.lines@.len(),
                header_line@ == lines[i],
                header_line_number == i + 1,
            ensures
                sp_question_options(lines, i + 1) == (SpQOptScan::Good {
                    choices: question.choices.deep_view(),
                    answer: ans_pre,
                    next: self.file_reader.current_position as int,
                }),
                i < self.file_reader.current_position as int <= lines.len(),
            decreases lines.len() - self.file_reader.current_position,
        {
            let ghost pos = self.file_reader.current_position as int;
            let ghost deep_old = question.choices.deep_view();
            let ghost len_old = question.choices@.len() as int;
            let ghost ans_old = ans_pre;
            match self.file_reader.next_line() {
                None => {
                    proof {
                        assert(sp_question_options(lines, pos) == (SpQOptScan::Good {
                            choices: Seq::<Seq<char>>::empty(),
                            answer: -1,
                            next: pos,
                        }));
                        assert(question.choices.deep_view() + Seq::<Seq<char>>::empty()
                            =~= question.choices.deep_view());
                    }
                    break ;
                },
                Some(line) => {
                    proof {
                        assert(line@ == lines[pos]);
                    }
                    if crate::grammar::line_is_option(line.as_str()) {
                        question.parse_option(line.as_str());
                        proof {
                            if question_option_parts(lines[pos]).1 {
                                ans_pre = len_old;
                            }
                        }
                        if !question.is_last_option_valid() {
                            let ln = self.file_reader.get_line_number();
                            let col = crate::text::count_leading_of(line.as_str(), ' ');
                            proof {
                                assert(question.choices.deep_view().last()
                                    == question_option_parts(lines[pos]).0);
                                assert(question.choices.deep_view()[question.choices@.len() - 1]
                                    == question.choices@[question.choices@.len() - 1]@);
                                assert(sp_question_options(lines, pos) == (SpQOptScan::Fail {
                                    line_number: pos + 1,
                                    column: count_leading(lines[pos], ' '),
                                    line: lines[pos],
                                }));
                            }
                            return Err(
                                Diagnostic::new(DiagnosticKind::InvalidOptionLength, line, ln, col),
                            );
                        }
                        proof {
                            let parts = question_option_parts(lines[pos]);
                            let t = parts.0;
                            assert(question.choices.deep_view().last() == t);
                            assert(question.choices.deep_view()[question.choices@.len() - 1]
                                == question.choices@[question.choices@.len() - 1]@);
                            assert(1 <= t.len() <= 100);
                            assert(is_option_line(lines[pos]));
                            assert(question.choices.deep_view() =~= deep_old.push(t));
                            lemma_sp_question_options_bounds(lines, pos + 1);
                            match sp_question_options(lines, pos + 1) {
                                SpQOptScan::Fail { line_number, column, line } => {
                                    assert(sp_question_options(lines, pos) == (SpQOptScan::Fail {
                                        line_number,
                                        column,
                                        line,
                                    }));
                                },
                                SpQOptScan::Good { choices, answer, next } => {
                                    assert(sp_question_options(lines, pos) == (SpQOptScan::Good {
                                        choices: seq![t] + choices,
                                        answer: if answer != -1 {
                                            answer + 1
                                        } else if parts.1 {
                                            0
                                        } else {
                                            -1
                                        },
                                        next,
                                    }));
                                    assert(deep_old + (seq![t] + choices) =~= (deep_old.push(t))
                                        + choices);
                                },
                            }
                        }
                    } else {
                        proof {
                            assert(!is_option_line(lines[pos]));
                            assert(sp_question_options(lines, pos) == (SpQOptScan::Good {
                                choices: Seq::<Seq<char>>::empty(),
                                answer: -1,
                                next: pos,
                            }));
                            assert(question.choices.deep_view() + Seq::<Seq<char>>::empty()
                                =~= question.choices.deep_view());
                        }
                        self.file_reader.back_to_previous();
                        break ;
                    }
                },
            }
        }
        if !question.is_options_valid() {
            return Err(
                Diagnostic::new(
                    DiagnosticKind::InvalidOptionCount,
                    String::from_str(header_line),
                    header_line_number,
                    0,
                ),
            );
        }
        if self.config.counter.0 {
            let v = self.config.counter.1;
            if !question.add_count(v) {
                return Err(
                    Diagnostic::new(
                        DiagnosticKind::CounterOverflow,
                        String::from_str(header_line),
                        header_line_number,
                        0,
                    ),
                );
            }
            if v == usize::MAX {
                return Err(
                    Diagnostic::new(
                        DiagnosticKind::CounterOverflow,
                        String::from_str(header_line),
                        header_line_number,
                        0,
                    ),
                );
            }
            self.config.counter = (true, v + 1);
        }
        self.question_count += 1;
        let ghost mcqps_old = self.mcqps@;
        self.mcqps.push(
            Mcqp { _type: McqpType::Question, poll: None, question: Some(question), message: None },
        );
        proof {
            assert(self.mcqps@.take(mcqps_old.len() as int) =~= mcqps_old);
        }
        Ok(())
    }

    /// The Config parser: consumes the block and updates the shared counter.
    pub fn parse_config(&mut self) -> (r: Result<(), Diagnostic>)
        requires
            old(self).file_reader.current_position <= old(self).file_reader.lines@.len(),
        ensures
            final(self).file_reader.lines == old(self).file_reader.lines,
            final(self).file_path == old(self).file_path,
            final(self).mcqps == old(self).mcqps,
            final(self).poll_count == old(self).poll_count,
            final(self).question_count == old(self).question_count,
            final(self).message_count == old(self).message_count,
            match sp_config_block(
                old(self).file_reader.lines.deep_view(),
                old(self).file_reader.current_position as int,
                old(self).config.counter,
            ) {
                Ok((c2, next)) => {
                    &&& r is Ok
                    &&& final(self).config.counter == c2
                    &&& final(self).file_reader.current_position == next
                },
                Err((d, c)) => {
                    &&& r is Err
                    &&& r->Err_0@ == d
                    &&& final(self).config.counter == c
                },
            },
    {
        self.config.parse_configs(&mut self.file_reader)
    }

    /// The Message parser: collects and escapes the body, then appends the
    /// message section.
    pub fn parse_message(&mut self, message_line: &str, message_line_number: usize) -> (r: Result<
        (),
        Diagnostic,
    >)
        requires
            old(self).file_reader.current_position <= old(self).file_reader.lines@.len(),
            message_line_number == old(self).file_reader.current_position,
            is_message_start(message_line@),
            old(self).poll_count + old(self).question_count + old(self).message_count < old(
                self,
            ).file_reader.current_position,
        ensures
            final(self).file_reader.lines == old(self).file_reader.lines,
            final(self).file_path == old(self).file_path,
            match sp_parse_message(
                old(self).file_reader.lines.deep_view(),
                old(self).file_reader.current_position as int,
                message_line@,
            ) {
                Err(d) => {
                    &&& r is Err
                    &&& r->Err_0@ == d
                    &&& final(self).mcqps == old(self).mcqps
                    &&& final(self).poll_count == old(self).poll_count
                    &&& final(self).question_count == old(self).question_count
                    &&& final(self).message_count == old(self).message_count
                    &&& final(self).config == old(self).config
                },
                Ok((body, next)) => {
                    &&& r is Ok
                    &&& final(self).mcqps@.len() == old(self).mcqps@.len() + 1
                    &&& final(self).mcqps@.take(old(self).mcqps@.len() as int) == old(self).mcqps@
                    &&& final(self).mcqps@.last().sp() == SpSection::Message(body)
                    &&& final(self).mcqps@.last().wf()
                    &&& final(self).mcqps@.last()._type == McqpType::Message
                    &&& final(self).poll_count == old(self).poll_count
                    &&& final(self).question_count == old(self).question_count
                    &&& final(self).message_count == old(self).message_count + 1
                    &&& final(self).config.counter == old(self).config.counter
                    &&& final(self).file_reader.current_position == next
                    &&& old(self).file_reader.current_position <= final(self).file_reader.current_position
                    &&& final(self).file_reader.current_position <= old(
                        self,
                    ).file_reader.lines@.len()
                },
            },
    {
        let ghost lines = old(self).file_reader.lines.deep_view();
        let mut message = Message::new();
        match message.parse_body(&mut self.file_reader, message_line) {
            Err(d) => {
                return Err(d);
            },
            Ok(()) => {},
        }
        proof {
            lemma_sp_parse_message_bounds(
                lines,
                old(self).file_reader.current_position as int,
                message_line@,
            );
        }
        self.message_count += 1;
        let ghost mcqps_old = self.mcqps@;
        self.mcqps.push(
            Mcqp { _type: McqpType::Message, poll: None, question: None, message: Some(message) },
        );
        proof {
            assert(self.mcqps@.take(mcqps_old.len() as int) =~= mcqps_old);
        }
        Ok(())
    }
}

/// Appending one entry appends its section, keeps well-formedness, and
/// moves its kind's count up by one.
proof fn lemma_append_entry(old_v: Seq<Mcqp>, new_v: Seq<Mcqp>, s: SpSection)
    requires
        new_v.len() == old_v.len() + 1,
        new_v.take(old_v.len() as int) == old_v,
        new_v.last().sp() == s,
    ensures
        sections_of(new_v) == sections_of(old_v).push(s),
        polls_in(new_v) == polls_in(old_v) + if new_v.last()._type == McqpType::Poll
            || new_v.last()._type == McqpType::MCPoll {
            1int
        } else {
            0int
        },
        questions_in(new_v) == questions_in(old_v) + if new_v.last()._type
            == McqpType::Question {
            1int
        } else {
            0int
        },
        messages_in(new_v) == messages_in(old_v) + if new_v.last()._type == McqpType::Message {
            1int
        } else {
            0int
        },
        ((forall|j: int| 0 <= j < old_v.len() ==> (#[trigger] old_v[j]).wf())
            && new_v.last().wf()) ==> forall|j: int|
            0 <= j < new_v.len() ==> (#[trigger] new_v[j]).wf(),
{
    assert forall|j: int| 0 <= j < old_v.len() implies new_v[j] == old_v[j] by {
        assert(new_v.take(old_v.len() as int)[j] == new_v[j]);
    }
    assert(sections_of(new_v) =~= sections_of(old_v).push(s));
    assert(new_v.drop_last() =~= old_v);
}

proof fn lemma_sections_assoc(a: Seq<SpSection>, x: SpSection, b: Seq<SpSection>)
    ensures
        a.push(x) + b == a + (seq![x] + b),
{
    assert(a.push(x) + b =~= a + (seq![x] + b));
}

impl McqpAST {
    /// The main entry of the MCQP parser: consumes every line, assembling
    /// the document, or stops at the first fatal diagnostic.  Either way
    /// the result is the `sp_parse_from` fold over the lines: the full
    /// document, or the diagnostic together with the document assembled
    /// before it — an invalid section is never appended, every entry is
    /// exactly one variant, and the counts are the per-kind entry counts.
    #[verifier::rlimit(100)]
    pub fn parse(&mut self) -> (r: Result<(), Diagnostic>)
        requires
            old(self).file_reader.current_position == 0,
            old(self).mcqps@ == Seq::<Mcqp>::empty(),
            old(self).poll_count == 0,
            old(self).question_count == 0,
            old(self).message_count == 0,
        ensures
            final(self).file_reader.lines == old(self).file_reader.lines,
            final(self).file_path == old(self).file_path,
            forall|j: int|
                0 <= j < final(self).mcqps@.len() ==> (#[trigger] final(self).mcqps@[j]).wf(),
            final(self).poll_count == polls_in(final(self).mcqps@),
            final(self).question_count == questions_in(final(self).mcqps@),
            final(self).message_count == messages_in(final(self).mcqps@),
            match sp_parse_from(
                old(self).file_reader.lines.deep_view(),
                0,
                old(self).config.counter,
            ) {
                Ok(doc) => {
                    &&& r is Ok
                    &&& sections_of(final(self).mcqps@) == doc.sections
                    &&& final(self).poll_count == doc.poll_count
                    &&& final(self).question_count == doc.question_count
                    &&& final(self).message_count == doc.message_count
                    &&& final(self).config.counter == doc.counter
                },
                Err((d, doc)) => {
                    &&& r is Err
                    &&& r->Err_0@ == d
                    &&& sections_of(final(self).mcqps@) == doc.sections
                    &&& final(self).poll_count == doc.poll_count
                    &&& final(self).question_count == doc.question_count
                    &&& final(self).message_count == doc.message_count
                    &&& final(self).config.counter == doc.counter
                },
            },
    {
        let ghost lines = old(self).file_reader.lines.deep_view();
        let ghost c0 = old(self).config.counter;
        proof {
            match sp_parse_from(lines, 0, c0) {
                Err((d, doc)) => {
                    assert(sections_of(old(self).mcqps@) + doc.sections =~= doc.sections);
                },
                Ok(doc) => {
                    assert(sections_of(old(self).mcqps@) + doc.sections =~= doc.sections);
                },
            }
        }
        loop
            invariant
                self.file_reader.lines == old(self).file_reader.lines,
                self.file_reader.lines.deep_view() == lines,
                self.file_reader.current_position <= lines.len(),
                self.poll_count + self.question_count + self.message_count
                    <= self.file_reader.current_position,
                self.file_path == old(self).file_path,
                c0 == old(self).config.counter,
                lines == old(self).file_reader.lines.deep_view(),
                forall|j: int| 0 <= j < self.mcqps@.len() ==> (#[trigger] self.mcqps@[j]).wf(),
                self.poll_count == polls_in(self.mcqps@),
                self.question_count == questions_in(self.mcqps@),
                self.message_count == messages_in(self.mcqps@),
                match sp_parse_from(
                    lines,
                    self.file_reader.current_position as int,
                    self.config.counter,
                ) {
                    Ok(doc) => sp_parse_from(lines, 0, c0) == Ok::<SpDoc, (SpDiagnostic, SpDoc)>(
                        SpDoc {
                            sections: sections_of(self.mcqps@) + doc.sections,
                            poll_count: self.poll_count + doc.poll_count,
                            question_count: self.question_count + doc.question_count,
                            message_count: self.message_count + doc.message_count,
                            counter: doc.counter,
                        },
                    ),
                    Err((d, doc)) => sp_parse_from(lines, 0, c0) == Err::<
                        SpDoc,
                        (SpDiagnostic, SpDoc),
                    >(
                        (
                            d,
                            SpDoc {
                                sections: sections_of(self.mcqps@) + doc.sections,
                                poll_count: self.poll_count + doc.poll_count,
                                question_count: self.question_count + doc.question_count,
                                message_count: self.message_count + doc.message_count,
                                counter: doc.counter,
                            },
                        ),
                    ),
                },
            decreases lines.len() - self.file_reader.current_position,
        {
            let ghost pos = self.file_reader.current_position as int;
            let ghost c_h = self.config.counter;
            let ghost mcqps_h = self.mcqps@;
            match self.file_reader.next_line() {
                None => {
                    proof {
                        assert(sp_parse_from(lines, pos, c_h) == Ok::<
                            SpDoc,
                            (SpDiagnostic, SpDoc),
                        >(sp_empty_doc(c_h)));
                        assert(sections_of(self.mcqps@) + Seq::<SpSection>::empty()
                            =~= sections_of(self.mcqps@));
                    }
                    return Ok(());
                },
                Some(line) => {
                    proof {
                        assert(line@ == lines[pos]);
                    }
                    let kind = crate::grammar::classify(line.as_str());
                    match kind {
                        LineKind::Comment => {
                            proof {
                                assert(sp_parse_from(lines, pos, c_h) == sp_parse_from(
                                    lines,
                                    pos + 1,
                                    c_h,
                                ));
                            }
                        },
                        LineKind::Blank => {
                            proof {
                                assert(sp_parse_from(lines, pos, c_h) == sp_parse_from(
                                    lines,
                                    pos + 1,
                                    c_h,
                                ));
                            }
                        },
                        LineKind::PollStart => {
                            let ln = self.file_reader.get_line_number();
                            match self.parse_poll(line.as_str(), false, ln) {
                                Err(d) => {
                                    proof {
                                        assert(sp_poll_section(lines, pos, false, c_h) is Err);
                                        assert(sections_of(self.mcqps@) + Seq::<
                                            SpSection,
                                        >::empty() =~= sections_of(self.mcqps@));
                                    }
                                    return Err(d);
                                },
                                Ok(()) => {
                                    proof {
                                        match sp_poll_section(lines, pos, false, c_h) {
                                            Err(_) => {},
                                            Ok((p, next, c2)) => {
                                                lemma_append_entry(
                                                    mcqps_h,
                                                    self.mcqps@,
                                                    SpSection::Poll(p),
                                                );
                                                let tail = match sp_parse_from(lines, next, c2) {
                                                    Ok(doc) => doc.sections,
                                                    Err((d2, doc)) => doc.sections,
                                                };
                                                lemma_sections_assoc(
                                                    sections_of(mcqps_h),
                                                    SpSection::Poll(p),
                                                    tail,
                                                );
                                            },
                                        }
                                    }
                                },
                            }
                        },
                        LineKind::McPollStart => {
                            let ln = self.file_reader.get_line_number();
                            match self.parse_poll(line.as_str(), true, ln) {
                                Err(d) => {
                                    proof {
                                        assert(sp_poll_section(lines, pos, true, c_h) is Err);
                                        assert(sections_of(self.mcqps@) + Seq::<
                                            SpSection,
                                        >::empty() =~= sections_of(self.mcqps@));
                                    }
                                    return Err(d);
                                },
                                Ok(()) => {
                                    proof {
                                        match sp_poll_section(lines, pos, true, c_h) {
                                            Err(_) => {},
                                            Ok((p, next, c2)) => {
                                                lemma_append_entry(
                                                    mcqps_h,
                                                    self.mcqps@,
                                                    SpSection::Poll(p),
                                                );
                                                let tail = match sp_parse_from(lines, next, c2) {
                                                    Ok(doc) => doc.sections,
                                                    Err((d2, doc)) => doc.sections,
                                                };
                                                lemma_sections_assoc(
                                                    sections_of(mcqps_h),
                                                    SpSection::Poll(p),
                                                    tail,
                                                );
                                            },
                                        }
                                    }
                                },
                            }
                        },
                        LineKind::QuestionStart => {
                            let ln = self.file_reader.get_line_number();
                            match self.parse_question(line.as_str(), ln) {
                                Err(d) => {
                                    proof {
                                        assert(sp_question_section(lines, pos, c_h) is Err);
                                        assert(sections_of(self.mcqps@) + Seq::<
                                            SpSection,
                                        >::empty() =~= sections_of(self.mcqps@));
                                    }
                                    return Err(d);
                                },
                                Ok(()) => {
                                    proof {
                                        match sp_question_section(lines, pos, c_h) {
                                            Err(_) => {},
                                            Ok((qn, next, c2)) => {
                                                lemma_append_entry(
                                                    mcqps_h,
                                                    self.mcqps@,
                                                    SpSection::Question(qn),
                                                );
                                                let tail = match sp_parse_from(lines, next, c2) {
                                                    Ok(doc) => doc.sections,
                                                    Err((d2, doc)) => doc.sections,
                                                };
                                                lemma_sections_assoc(
                                                    sections_of(mcqps_h),
                                                    SpSection::Question(qn),
                                                    tail,
                                                );
                                            },
                                        }
                                    }
                                },
                            }
                        },
                        LineKind::ConfigStart => {
                            match self.parse_config() {
                                Err(d) => {
                                    proof {
                                        assert(sp_config_block(lines, pos + 1, c_h) is Err);
                                        assert(sections_of(self.mcqps@) + Seq::<
                                            SpSection,
                                        >::empty() =~= sections_of(self.mcqps@));
                                    }
                                    return Err(d);
                                },
                                Ok(()) => {
                                    proof {
                                        lemma_sp_config_block_bounds(lines, pos + 1, c_h);
                                    }
                                },
                            }
                        },
                        LineKind::MessageStart => {
                            let ln = self.file_reader.get_line_number();
                            match self.parse_message(line.as_str(), ln) {
                                Err(d) => {
                                    proof {
                                        assert(sp_parse_message(lines, pos + 1, lines[pos])
                                            is Err);
                                        assert(sections_of(self.mcqps@) + Seq::<
                                            SpSection,
                                        >::empty() =~= sections_of(self.mcqps@));
                                    }
                                    return Err(d);
                                },
                                Ok(()) => {
                                    proof {
                                        match sp_parse_message(lines, pos + 1, lines[pos]) {
                                            Err(_) => {},
                                            Ok((body, next)) => {
                                                lemma_append_entry(
                                                    mcqps_h,
                                                    self.mcqps@,
                                                    SpSection::Message(body),
                                                );
                                                let tail = match sp_parse_from(lines, next, c_h) {
                                                    Ok(doc) => doc.sections,
                                                    Err((d2, doc)) => doc.sections,
                                                };
                                                lemma_sections_assoc(
                                                    sections_of(mcqps_h),
                                                    SpSection::Message(body),
                                                    tail,
                                                );
                                            },
                                        }
                                    }
                                },
                            }
                        },
                        LineKind::Unknown => {
                            let ln = self.file_reader.get_line_number();
                            proof {
                                assert(sp_parse_from(lines, pos, c_h) == Err::<
                                    SpDoc,
                                    (SpDiagnostic, SpDoc),
                                >(
                                    (
                                        SpDiagnostic {
                                            kind: DiagnosticKind::UnknownKeyword,
                                            line: lines[pos],
                                            line_number: pos + 1,
                                            column: 0,
                                        },
                                        sp_empty_doc(c_h),
                                    ),
                                ));
                                assert(sections_of(self.mcqps@) + Seq::<SpSection>::empty()
                                    =~= sections_of(self.mcqps@));
                            }
                            return Err(
                                Diagnostic::new(DiagnosticKind::UnknownKeyword, line, ln, 0),
                            );
                        },
                    }
                },
            }
        }
    }
}

} // verus!
