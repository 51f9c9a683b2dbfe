//! The fatal-error taxonomy and the positioned diagnostic a failed parse
//! returns.  Parsing is all-or-nothing: the first diagnostic ends it.

use vstd::prelude::*;

verus! {

/// Every way a parse can fail.  None is locally recoverable.
#[derive(PartialEq, Eq, Structural, Clone, Copy, Debug)]
pub enum DiagnosticKind {
    /// No top-level pattern matched the line.
    UnknownKeyword,
    /// A section header carries no question text.
    InvalidHeader,
    /// A question text fell outside 1 to 255 characters.
    InvalidQuestionLength,
    /// A note fell outside 1 to 200 characters.
    InvalidNoteLength,
    /// An option fell outside 1 to 100 characters.
    InvalidOptionLength,
    /// The option list is unusable: too few, too many, or (for a question)
    /// no correct answer marked.
    InvalidOptionCount,
    /// The counter prefix would push a question past 255 characters, or the
    /// counter itself cannot advance.
    CounterOverflow,
    /// The counter value is not a non-negative integer.
    InvalidCounterValue,
    /// A config line names a feature this format does not know.
    UnknownConfigFeature,
    /// A config line has no `=`.
    MissingAssignmentOperator,
    /// The input ended inside a message block.
    UnterminatedMessageBlock,
    /// A message block closed over an empty body.
    EmptyMessageBody,
    /// The underlying source could not be read at some line; raised by the
    /// caller that owns the I/O, never by the parser itself.
    LineReadFailure,
}

/// The specification-level shape of a diagnostic.
pub struct SpDiagnostic {
    pub kind: DiagnosticKind,
    pub line: Seq<char>,
    pub line_number: int,
    pub column: int,
}

/// A fatal parse error: what went wrong, the offending line's own text, its
/// 1-based line number, and the 0-based char column the caret points at.
pub struct Diagnostic {
    pub kind: DiagnosticKind,
    pub line: String,
    pub line_number: usize,
    pub column: usize,
}

impl View for Diagnostic {
    type V = SpDiagnostic;

    open spec fn view(&self) -> SpDiagnostic {
        SpDiagnostic {
            kind: self.kind,
            line: self.line@,
            line_number: self.line_number as int,
            column: self.column as int,
        }
    }
}

impl Diagnostic {
    /// Packs one diagnostic.
    pub fn new(kind: DiagnosticKind, line: String, line_number: usize, column: usize) -> (r:
        Diagnostic)
        ensures
            r@ == (SpDiagnostic {
                kind,
                line: line@,
                line_number: line_number as int,
                column: column as int,
            }),
    {
        Diagnostic { kind, line, line_number, column }
    }
}

} // verus!
