//! The message section: free-text lines gathered up to the terminator, run
//! through a persistent per-line markdown-escaping pass.
//!
//! Four flags (emphasis `*`, inline code `` ` ``, underline `_`, link
//! bracket `[`) toggle as a line's characters go by; a fifth tracks a
//! three-backtick fence and, while it is open, suppresses all toggling.  A
//! flag still open at a line's end means that line's last such marker is
//! unmatched: a backslash is inserted before it and the flag resets, so no
//! escape obligation crosses a line.  Only the fence state survives from
//! line to line; a fence still open at the end of the body is closed by one
//! appended fence.

use vstd::prelude::*;
use crate::text::{last_index_of, last_index_in};
use crate::grammar::is_message_end;
use crate::diagnostics::{Diagnostic, DiagnosticKind, SpDiagnostic};
use crate::file::FileReader;

verus! {

/// The escaping pass's state between characters and between lines.
#[derive(PartialEq, Eq, Structural, Clone, Copy, Debug)]
pub struct EscapeState {
    /// An emphasis `*` is open.
    pub star_open: bool,
    /// An inline-code backtick is open.
    pub backtick_open: bool,
    /// An underline `_` is open.
    pub underscore_open: bool,
    /// A link bracket `[` is open.
    pub square_bracket_open: bool,
    /// Inside a fenced code block.
    pub code_block_open: bool,
    /// Characters of a just-seen fence still to pass over untoggled.
    pub skip: u8,
}

/// The state before any character was seen.
pub open spec fn initial_escape_state() -> EscapeState {
    EscapeState {
        star_open: false,
        backtick_open: false,
        underscore_open: false,
        square_bracket_open: false,
        code_block_open: false,
        skip: 0,
    }
}

/// Builds the initial state in executable code.
pub fn escape_state_new() -> (r: EscapeState)
    ensures
        r == initial_escape_state(),
{
    EscapeState {
        star_open: false,
        backtick_open: false,
        underscore_open: false,
        square_bracket_open: false,
        code_block_open: false,
        skip: 0,
    }
}

/// A three-backtick fence stands at position `i`.
pub open spec fn fence_at(line: Seq<char>, i: int) -> bool {
    &&& 0 <= i
    &&& i + 3 <= line.len()
    &&& line[i] == '`'
    &&& line[i + 1] == '`'
    &&& line[i + 2] == '`'
}

/// One character of the scan.  A fence sighting flips the fence flag and
/// arms a three-character skip; inside a fence nothing toggles; otherwise
/// the character's own marker flag flips (`[` and `]` set and clear one
/// flag rather than toggling it).
pub open spec fn scan_step(line: Seq<char>, i: int, st: EscapeState) -> EscapeState {
    let st1 = if fence_at(line, i) {
        EscapeState { code_block_open: !st.code_block_open, skip: 3, ..st }
    } else {
        st
    };
    if st1.code_block_open {
        st1
    } else if st1.skip != 0 {
        EscapeState { skip: (st1.skip - 1) as u8, ..st1 }
    } else if line[i] == '*' {
        EscapeState { star_open: !st1.star_open, ..st1 }
    } else if line[i] == '`' {
        EscapeState { backtick_open: !st1.backtick_open, ..st1 }
    } else if line[i] == '_' {
        EscapeState { underscore_open: !st1.underscore_open, ..st1 }
    } else if line[i] == '[' {
        EscapeState { square_bracket_open: true, ..st1 }
    } else if line[i] == ']' {
        EscapeState { square_bracket_open: false, ..st1 }
    } else {
        st1
    }
}

/// The scan over `line` from position `i` on.
pub open spec fn scan_from(line: Seq<char>, i: int, st: EscapeState) -> EscapeState
    decreases line.len() - i,
{
    if i < 0 || i >= line.len() {
        st
    } else {
        scan_from(line, i + 1, scan_step(line, i, st))
    }
}

/// A backslash inserted before the last `c` of `s` (unchanged when `s` has
/// no `c`).
pub open spec fn escape_last(s: Seq<char>, c: char) -> Seq<char> {
    let k = last_index_of(s, c);
    if k < 0 {
        s
    } else {
        s.take(k) + seq!['\\'] + s.skip(k)
    }
}

/// The end-of-line step: each flag still open escapes its marker's last
/// occurrence, in this fixed order, and resets; the fence state stays.
pub open spec fn finish_line(line: Seq<char>, st: EscapeState) -> (Seq<char>, EscapeState) {
    let s1 = if st.star_open {
        escape_last(line, '*')
    } else {
        line
    };
    let s2 = if st.backtick_open {
        escape_last(s1, '`')
    } else {
        s1
    };
    let s3 = if st.underscore_open {
        escape_last(s2, '_')
    } else {
        s2
    };
    let s4 = if st.square_bracket_open {
        escape_last(s3, '[')
    } else {
        s3
    };
    (
        s4,
        EscapeState {
            star_open: false,
            backtick_open: false,
            underscore_open: false,
            square_bracket_open: false,
            ..st
        },
    )
}

/// What the escaping pass makes of one accumulated line.
pub open spec fn escape_line(line: Seq<char>, st: EscapeState) -> (Seq<char>, EscapeState) {
    finish_line(line, scan_from(line, 0, st))
}

/// Runs `scan_step` once in executable code.
fn scan_step_exec(line: &str, i: usize, n: usize, st: EscapeState) -> (r: EscapeState)
    requires
        n == line@.len(),
        i < n,
    ensures
        r == scan_step(line@, i as int, st),
{
    let fence = n - i >= 3 && line.get_char(i) == '`' && line.get_char(i + 1) == '`'
        && line.get_char(i + 2) == '`';
    let st1 = if fence {
        EscapeState { code_block_open: !st.code_block_open, skip: 3, ..st }
    } else {
        st
    };
    if st1.code_block_open {
        st1
    } else if st1.skip != 0 {
        EscapeState { skip: st1.skip - 1, ..st1 }
    } else {
        let c = line.get_char(i);
        if c == '*' {
            EscapeState { star_open: !st1.star_open, ..st1 }
        } else if c == '`' {
            EscapeState { backtick_open: !st1.backtick_open, ..st1 }
        } else if c == '_' {
            EscapeState { underscore_open: !st1.underscore_open, ..st1 }
        } else if c == '[' {
            EscapeState { square_bracket_open: true, ..st1 }
        } else if c == ']' {
            EscapeState { square_bracket_open: false, ..st1 }
        } else {
            st1
        }
    }
}

/// Runs the whole scan of one line in executable code.
pub fn scan_line(line: &str, st: EscapeState) -> (r: EscapeState)
    ensures
        r == scan_from(line@, 0, st),
{
    let n = line.unicode_len();
    let mut cur = st;
    let mut i: usize = 0;
    while i < n
        invariant
            n == line@.len(),
            0 <= i <= n,
            scan_from(line@, 0, st) == scan_from(line@, i as int, cur),
        decreases n - i,
    {
        cur = scan_step_exec(line, i, n, cur);
        i += 1;
    }
    cur
}

/// Inserts a backslash before the last `c` of `s` in executable code.
pub fn escape_last_in(s: &str, c: char) -> (r: String)
    ensures
        r@ == escape_last(s@, c),
{
    let n = s.unicode_len();
    match last_index_in(s, c) {
        None => String::from_str(s),
        Some(k) => {
            proof {
                reveal_strlit("\\");
                crate::text::lemma_last_index_of(s@, c);
            }
            let r = String::from_str(s.substring_char(0, k)).concat("\\").concat(
                s.substring_char(k, n),
            );
            proof {
                assert(r@ =~= escape_last(s@, c));
            }
            r
        },
    }
}

/// Escapes one line and hands the state on, in executable code.
pub fn escape_line_of(line: &str, st: EscapeState) -> (r: (String, EscapeState))
    ensures
        r.0@ == escape_line(line@, st).0,
        r.1 == escape_line(line@, st).1,
{
    let st2 = scan_line(line, st);
    let s1 = if st2.star_open {
        escape_last_in(line, '*')
    } else {
        String::from_str(line)
    };
    let s2 = if st2.backtick_open {
        escape_last_in(s1.as_str(), '`')
    } else {
        s1
    };
    let s3 = if st2.underscore_open {
        escape_last_in(s2.as_str(), '_')
    } else {
        s2
    };
    let s4 = if st2.square_bracket_open {
        escape_last_in(s3.as_str(), '[')
    } else {
        s3
    };
    let out = EscapeState {
        star_open: false,
        backtick_open: false,
        underscore_open: false,
        square_bracket_open: false,
        ..st2
    };
    (s4, out)
}

/// What collecting lines from index `i` under state `st` yields: the input
/// may end first, or the terminator line arrives; the terminator line's
/// own text belongs to no body — collection runs up to it, not into it.
pub enum SpMsgScan {
    Unterminated,
    Done { raw: Seq<char>, st: EscapeState, next: int },
}

pub open spec fn sp_message_lines(lines: Seq<Seq<char>>, i: int, st: EscapeState) -> SpMsgScan
    decreases lines.len() - i,
{
    if i < 0 || i >= lines.len() {
        SpMsgScan::Unterminated
    } else if is_message_end(lines[i]) {
        SpMsgScan::Done { raw: Seq::empty(), st, next: i + 1 }
    } else {
        let e = escape_line(lines[i], st);
        match sp_message_lines(lines, i + 1, e.1) {
            SpMsgScan::Unterminated => SpMsgScan::Unterminated,
            SpMsgScan::Done { raw, st, next } => SpMsgScan::Done {
                raw: e.0.push('\n') + raw,
                st,
                next,
            },
        }
    }
}

/// The final body: a still-open fence gets its closing fence; otherwise the
/// one trailing newline the accumulation added is stripped.
pub open spec fn seal_body(raw: Seq<char>, st: EscapeState) -> Seq<char> {
    if st.code_block_open {
        raw + seq!['`', '`', '`']
    } else if raw.len() > 0 {
        raw.drop_last()
    } else {
        raw
    }
}

/// The whole message parse: the text after `m:(` on the opening line (when
/// any) is the first accumulated line; collection then runs up to the
/// terminator, whose own text is excluded.  An opening line that itself
/// ends with the terminator closes the block over an empty body.  `i` is
/// both the index collection starts at and the opening line's 1-based
/// number.
pub open spec fn sp_parse_message(
    lines: Seq<Seq<char>>,
    i: int,
    start_line: Seq<char>,
) -> Result<(Seq<char>, int), SpDiagnostic> {
    let rem = start_line.skip(3);
    if is_message_end(rem) {
        Err(
            SpDiagnostic {
                kind: DiagnosticKind::EmptyMessageBody,
                line: start_line,
                line_number: i,
                column: 0,
            },
        )
    } else {
        sp_parse_message_rest(lines, i, start_line)
    }
}

/// The multi-line case: the opening line's remainder is the first
/// accumulated line and collection runs to the terminator.
pub open spec fn sp_parse_message_rest(
    lines: Seq<Seq<char>>,
    i: int,
    start_line: Seq<char>,
) -> Result<(Seq<char>, int), SpDiagnostic> {
    let rem = start_line.skip(3);
    let head = if rem.len() > 0 {
        let e = escape_line(rem, initial_escape_state());
        (e.0.push('\n'), e.1)
    } else {
        (Seq::<char>::empty(), initial_escape_state())
    };
    match sp_message_lines(lines, i, head.1) {
        SpMsgScan::Unterminated => Err(
            SpDiagnostic {
                kind: DiagnosticKind::UnterminatedMessageBlock,
                line: start_line,
                line_number: i,
                column: 0,
            },
        ),
        SpMsgScan::Done { raw, st, next } => {
            let body = seal_body(head.0 + raw, st);
            if body.len() == 0 {
                Err(
                    SpDiagnostic {
                        kind: DiagnosticKind::EmptyMessageBody,
                        line: start_line,
                        line_number: i,
                        column: 0,
                    },
                )
            } else {
                Ok((body, next))
            }
        },
    }
}

pub struct Message {
    /// The message body
    pub m: String,
}

impl Message {
    /// An empty message, waiting for its body.
    pub fn new() -> (r: Message)
        ensures
            r.m@ == Seq::<char>::empty(),
    {
        Message { m: String::new() }
    }

    /// Check the body length.
    pub fn is_valid(&self) -> (r: bool)
        ensures
            r == (self.m@.len() > 0),
    {
        self.m.as_str().unicode_len() > 0
    }

    /// Collects and escapes the message body, consuming lines up to and
    /// including the terminator.
    #[verifier::loop_isolation(false)]
    pub fn parse_body(&mut self, reader: &mut FileReader, start_line: &str) -> (r: Result<
        (),
        Diagnostic,
    >)
        requires
            3 <= start_line@.len(),
            old(reader).current_position <= old(reader).lines@.len(),
        ensures
            final(reader).lines == old(reader).lines,
            sp_parse_message(
                old(reader).lines.deep_view(),
                old(reader).current_position as int,
                start_line@,
            ) is Ok ==> {
                &&& r is Ok
                &&& final(self).m@ == sp_parse_message(
                    old(reader).lines.deep_view(),
                    old(reader).current_position as int,
                    start_line@,
                )->Ok_0.0
                &&& final(reader).current_position == sp_parse_message(
                    old(reader).lines.deep_view(),
                    old(reader).current_position as int,
                    start_line@,
                )->Ok_0.1
            },
            sp_parse_message(
                old(reader).lines.deep_view(),
                old(reader).current_position as int,
                start_line@,
            ) is Err ==> {
                &&& r is Err
                &&& r->Err_0@ == sp_parse_message(
                    old(reader).lines.deep_view(),
                    old(reader).current_position as int,
                    start_line@,
                )->Err_0
            },
    {
        let ghost lines = old(reader).lines.deep_view();
        let ghost i0 = old(reader).current_position as int;
        let start_ln = reader.get_line_number();
        proof {
            reveal_strlit("\n");
        }
        let n = start_line.unicode_len();
        let rem = start_line.substring_char(3, n);
        proof {
            assert(rem@ =~= start_line@.skip(3));
        }
        if crate::grammar::line_ends_message(rem) {
            return Err(
                Diagnostic::new(
                    DiagnosticKind::EmptyMessageBody,
                    String::from_str(start_line),
                    start_ln,
                    0,
                ),
            );
        }
        let mut st = escape_state_new();
        let mut head = String::new();
        if rem.unicode_len() > 0 {
            let e = escape_line_of(rem, st);
            head = e.0.concat("\n");
            st = e.1;
            proof {
                assert(head@ =~= escape_line(rem@, initial_escape_state()).0.push('\n'));
            }
        }
        let ghost head0 = head@;
        let ghost st1 = st;
        let mut acc = String::new();
        proof {
            assert(acc@ + Seq::<char>::empty() =~= acc@);
        }
        loop
            invariant
                3 <= start_line@.len(),
                reader.lines == old(reader).lines,
                reader.lines.deep_view() == lines,
                head@ == head0,
                start_ln == i0,
                i0 <= reader.current_position as int <= lines.len() || reader.current_position
                    as int == i0,
                match sp_message_lines(lines, reader.current_position as int, st) {
                    SpMsgScan::Unterminated => sp_message_lines(lines, i0, st1)
                        is Unterminated,
                    SpMsgScan::Done { raw, st: s2, next } => sp_message_lines(lines, i0, st1)
                        == (SpMsgScan::Done { raw: acc@ + raw, st: s2, next }),
                },
            decreases lines.len() - reader.current_position,
        {
            let ghost pos = reader.current_position as int;
            let ghost st_h = st;
            let ghost acc_prev = acc@;
            proof {
                reveal_strlit("\n");
            }
            match reader.next_line() {
                None => {
                    proof {
                        assert(sp_message_lines(lines, pos, st_h) is Unterminated);
                    }
                    return Err(
                        Diagnostic::new(
                            DiagnosticKind::UnterminatedMessageBlock,
                            String::from_str(start_line),
                            start_ln,
                            0,
                        ),
                    );
                },
                Some(line) => {
                    proof {
                        assert(line@ == lines[pos]);
                    }
                    if crate::grammar::line_ends_message(line.as_str()) {
                        proof {
                            assert(sp_message_lines(lines, pos, st_h) == (SpMsgScan::Done {
                                raw: Seq::<char>::empty(),
                                st: st,
                                next: pos + 1,
                            }));
                            assert(acc@ + Seq::<char>::empty() =~= acc@);
                            assert(sp_message_lines(lines, i0, st1) == (SpMsgScan::Done {
                                raw: acc_prev,
                                st: st,
                                next: pos + 1,
                            }));
                        }
                        let total = head.concat(acc.as_str());
                        proof {
                            assert(total@ =~= head0 + acc_prev);
                        }
                        let sealed: String;
                        if st.code_block_open {
                            proof {
                                reveal_strlit("```");
                            }
                            sealed = total.concat("```");
                            proof {
                                assert(sealed@ =~= seal_body(head0 + acc_prev, st));
                            }
                        } else {
                            let tn = total.as_str().unicode_len();
                            if tn > 0 {
                                sealed = String::from_str(total.as_str().substring_char(0, tn - 1));
                                proof {
                                    assert(sealed@ =~= seal_body(head0 + acc_prev, st));
                                }
                            } else {
                                sealed = total;
                            }
                        }
                        if sealed.as_str().unicode_len() == 0 {
                            return Err(
                                Diagnostic::new(
                                    DiagnosticKind::EmptyMessageBody,
                                    String::from_str(start_line),
                                    start_ln,
                                    0,
                                ),
                            );
                        }
                        self.m = sealed;
                        return Ok(());
                    } else {
                        let e = escape_line_of(line.as_str(), st);
                        acc = acc.concat(e.0.as_str()).concat("\n");
                        st = e.1;
                        proof {
                            let e0p = escape_line(lines[pos], st_h).0.push('\n');
                            assert(acc@ =~= acc_prev + e0p);
                            match sp_message_lines(lines, pos + 1, st) {
                                SpMsgScan::Unterminated => {
                                    assert(sp_message_lines(lines, pos, st_h)
                                        is Unterminated);
                                },
                                SpMsgScan::Done { raw, st: s2, next } => {
                                    assert(sp_message_lines(lines, pos, st_h) == (
                                    SpMsgScan::Done { raw: e0p + raw, st: s2, next }));
                                    assert(acc_prev + (e0p + raw) =~= (acc_prev + e0p) + raw);
                                },
                            }
                        }
                    }
                },
            }
        }
    }
}

} // verus!
