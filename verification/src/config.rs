//! The config section: a side channel, never stored in the document.  Its
//! one recognized feature is `counter`, which switches on auto-numbering of
//! the question texts that follow.

use vstd::prelude::*;
use crate::text::{
    trimmed,
    leading_spaces,
    trailing_spaces,
    first_index_of,
    all_digits,
    dec_value,
    trim_of,
    leading_spaces_of,
    content_end_of,
    first_index_in,
    parse_decimal,
};
use crate::grammar::is_option_line;
use crate::diagnostics::{Diagnostic, DiagnosticKind, SpDiagnostic};
use crate::file::FileReader;

verus! {

/// The `counter` key.
pub open spec fn counter_key() -> Seq<char> {
    seq!['c', 'o', 'u', 'n', 't', 'e', 'r']
}

/// What one indented config line does to the counter: `counter = <n>` sets
/// it, a missing `=`, an unknown key, or a bad value is fatal.  An error
/// comes with the caret column.
pub open spec fn sp_config_line(s: Seq<char>, counter: (bool, usize)) -> Result<
    (bool, usize),
    (DiagnosticKind, int),
> {
    let e = first_index_of(s, '=', 0);
    if e < 0 {
        Err((DiagnosticKind::MissingAssignmentOperator, s.len() - trailing_spaces(s)))
    } else {
        let key = trimmed(s.take(e));
        if key == counter_key() {
            let v = trimmed(s.skip(e + 1));
            if v.len() > 0 && all_digits(v) && dec_value(v) <= usize::MAX {
                Ok((true, dec_value(v) as usize))
            } else {
                Err((DiagnosticKind::InvalidCounterValue, e + 1 + leading_spaces(s.skip(e + 1))))
            }
        } else {
            Err((DiagnosticKind::UnknownConfigFeature, leading_spaces(s)))
        }
    }
}

/// What the whole block does: indented lines are applied in order until the
/// first line that is not one; that line is rewound for the caller.  An
/// error carries the counter the successful prefix reached, since those
/// assignments already took effect.  `i` is the index the block's first
/// candidate line has.
pub open spec fn sp_config_block(
    lines: Seq<Seq<char>>,
    i: int,
    counter: (bool, usize),
) -> Result<((bool, usize), int), (SpDiagnostic, (bool, usize))>
    decreases lines.len() - i,
{
    if i < 0 || i >= lines.len() {
        Ok((counter, i))
    } else if !is_option_line(lines[i]) {
        Ok((counter, i))
    } else {
        match sp_config_line(lines[i], counter) {
            Err((k, col)) => Err(
                (
                    SpDiagnostic { kind: k, line: lines[i], line_number: i + 1, column: col },
                    counter,
                ),
            ),
            Ok(c2) => sp_config_block(lines, i + 1, c2),
        }
    }
}

/// Is the key exactly `counter`?
fn is_counter_key(s: &str) -> (r: bool)
    ensures
        r == (s@ == counter_key()),
{
    let n = s.unicode_len();
    let hit = n == 7 && s.get_char(0) == 'c' && s.get_char(1) == 'o' && s.get_char(2) == 'u'
        && s.get_char(3) == 'n' && s.get_char(4) == 't' && s.get_char(5) == 'e' && s.get_char(6)
        == 'r';
    proof {
        if hit {
            assert(s@ =~= counter_key());
        } else if s@ == counter_key() {
            assert(s@[0] == 'c' && s@[1] == 'o' && s@[2] == 'u' && s@[3] == 'n' && s@[4] == 't'
                && s@[5] == 'e' && s@[6] == 'r');
            assert(false);
        }
    }
    hit
}

pub struct Config {
    /// The poll/question counter `(is_set: bool, start_from: usize)`
    pub counter: (bool, usize),
}

impl Config {
    /// Create a new Config with the counter off.
    pub fn new() -> (r: Config)
        ensures
            r.counter == (false, 0usize),
    {
        Config { counter: (false, 0) }
    }

    /// Applies one indented config line.  An error carries its kind and the
    /// caret column; the caller owns the line number.
    pub fn parse(&mut self, line: &str) -> (r: Result<(), (DiagnosticKind, usize)>)
        ensures
            match sp_config_line(line@, old(self).counter) {
                Ok(c2) => r is Ok && final(self).counter == c2,
                Err((k, col)) => {
                    &&& r is Err
                    &&& r->Err_0.0 == k
                    &&& r->Err_0.1 == col
                    &&& final(self).counter == old(self).counter
                },
            },
    {
        let n = line.unicode_len();
        match first_index_in(line, '=') {
            None => Err((DiagnosticKind::MissingAssignmentOperator, content_end_of(line))),
            Some(e) => {
                let key = trim_of(line.substring_char(0, e));
                proof {
                    assert(line@.subrange(0, e as int) =~= line@.take(e as int));
                }
                if is_counter_key(key.as_str()) {
                    let value_part = line.substring_char(e + 1, n);
                    proof {
                        assert(value_part@ =~= line@.skip(e + 1));
                    }
                    let v = trim_of(value_part);
                    match parse_decimal(v.as_str()) {
                        Some(value) => {
                            self.counter = (true, value);
                            Ok(())
                        },
                        None => {
                            let ls = leading_spaces_of(value_part);
                            proof {
                                crate::text::lemma_trim_front_skip(value_part@);
                            }
                            Err((DiagnosticKind::InvalidCounterValue, e + 1 + ls))
                        },
                    }
                } else {
                    Err((DiagnosticKind::UnknownConfigFeature, leading_spaces_of(line)))
                }
            },
        }
    }

    /// Consumes the block's indented lines, applying each; the first line
    /// that is not one ends the block and is rewound for the caller.  On an
    /// error the assignments before the offending line have already taken
    /// effect, and the counter holds their result.
    #[verifier::loop_isolation(false)]
    pub fn parse_configs(&mut self, reader: &mut FileReader) -> (r: Result<(), Diagnostic>)
        requires
            old(reader).current_position <= old(reader).lines@.len(),
        ensures
            final(reader).lines == old(reader).lines,
            match sp_config_block(
                old(reader).lines.deep_view(),
                old(reader).current_position as int,
                old(self).counter,
            ) {
                Ok((c2, next)) => {
                    &&& r is Ok
                    &&& final(self).counter == c2
                    &&& final(reader).current_position == next
                },
                Err((d, c)) => {
                    &&& r is Err
                    &&& r->Err_0@ == d
                    &&& final(self).counter == c
                },
            },
    {
        let ghost lines = old(reader).lines.deep_view();
        let ghost i0 = old(reader).current_position as int;
        loop
            invariant
                reader.lines == old(reader).lines,
                reader.current_position <= reader.lines@.len(),
                i0 <= reader.current_position as int,
                match sp_config_block(lines, reader.current_position as int, self.counter) {
                    Ok((c2, next)) => sp_config_block(lines, i0, old(self).counter) == Ok::<
                        _,
                        (SpDiagnostic, (bool, usize)),
                    >((c2, next)),
                    Err(e) => sp_config_block(lines, i0, old(self).counter) == Err::<
                        ((bool, usize), int),
                        _,
                    >(e),
                },
            decreases reader.lines@.len() - reader.current_position,
        {
            let ghost pos = reader.current_position as int;
            match reader.next_line() {
                None => {
                    return Ok(());
                },
                Some(line) => {
                    proof {
                        assert(line@ == lines[pos]);
                    }
                    if crate::grammar::line_is_option(line.as_str()) {
                        let line_number = reader.get_line_number();
                        match self.parse(line.as_str()) {
                            Ok(()) => {},
                            Err((kind, column)) => {
                                return Err(Diagnostic::new(kind, line, line_number, column));
                            },
                        }
                    } else {
                        reader.back_to_previous();
                        return Ok(());
                    }
                },
            }
        }
    }
}

} // verus!
