//! The line grammar engine: classifies one line against the fixed pattern
//! set of the format and extracts the named parts of a header.  Purely
//! functional — it never moves the cursor.

use vstd::prelude::*;
use crate::text::{is_space, trimmed, trim_of, leading_spaces, trailing_spaces};

verus! {

/// `p` stands at the front of `s`.
pub open spec fn has_prefix(s: Seq<char>, p: Seq<char>) -> bool {
    p.len() <= s.len() && s.subrange(0, p.len() as int) == p
}

/// `p` stands at the back of `s`.
pub open spec fn has_suffix(s: Seq<char>, p: Seq<char>) -> bool {
    p.len() <= s.len() && s.subrange(s.len() - p.len(), s.len() as int) == p
}

/// Prefix test in executable code.
pub fn str_has_prefix(s: &str, p: &str) -> (r: bool)
    ensures
        r == has_prefix(s@, p@),
{
    let n = s.unicode_len();
    let m = p.unicode_len();
    if m > n {
        assert(!has_prefix(s@, p@));
        return false;
    }
    let mut i: usize = 0;
    while i < m
        invariant
            n == s@.len(),
            m == p@.len(),
            m <= n,
            0 <= i <= m,
            forall|j: int| 0 <= j < i ==> s@[j] == p@[j],
        decreases m - i,
    {
        if s.get_char(i) != p.get_char(i) {
            assert(s@.subrange(0, m as int)[i as int] != p@[i as int]);
            return false;
        }
        i += 1;
    }
    proof {
        assert(s@.subrange(0, m as int) =~= p@);
    }
    true
}

/// Suffix test in executable code.
pub fn str_has_suffix(s: &str, p: &str) -> (r: bool)
    ensures
        r == has_suffix(s@, p@),
{
    let n = s.unicode_len();
    let m = p.unicode_len();
    if m > n {
        assert(!has_suffix(s@, p@));
        return false;
    }
    let base = n - m;
    let mut i: usize = 0;
    while i < m
        invariant
            n == s@.len(),
            m == p@.len(),
            m <= n,
            base == n - m,
            0 <= i <= m,
            forall|j: int| 0 <= j < i ==> s@[base + j] == p@[j],
        decreases m - i,
    {
        if s.get_char(base + i) != p.get_char(i) {
            assert(s@.subrange(base as int, n as int)[i as int] != p@[i as int]);
            return false;
        }
        i += 1;
    }
    proof {
        assert(s@.subrange(base as int, n as int) =~= p@);
    }
    true
}

/// A comment: the trimmed content begins with `//`.
pub open spec fn is_comment(s: Seq<char>) -> bool {
    has_prefix(trimmed(s), seq!['/', '/'])
}

/// A blank line: nothing but whitespace.
pub open spec fn is_blank(s: Seq<char>) -> bool {
    trimmed(s).len() == 0
}

/// A poll header: the line begins with `p:`.
pub open spec fn is_poll_start(s: Seq<char>) -> bool {
    has_prefix(s, seq!['p', ':'])
}

/// A multi-choice poll header: the line begins with `mcp:`.
pub open spec fn is_mcpoll_start(s: Seq<char>) -> bool {
    has_prefix(s, seq!['m', 'c', 'p', ':'])
}

/// A question header: the line begins with `q:`.
pub open spec fn is_question_start(s: Seq<char>) -> bool {
    has_prefix(s, seq!['q', ':'])
}

/// A config block opener: the line begins with `config:`.
pub open spec fn is_config_start(s: Seq<char>) -> bool {
    has_prefix(s, seq!['c', 'o', 'n', 'f', 'i', 'g', ':'])
}

/// A message block opener: the line begins with `m:(`.
pub open spec fn is_message_start(s: Seq<char>) -> bool {
    has_prefix(s, seq!['m', ':', '('])
}

/// A message block terminator: the line ends with `):endm`.
pub open spec fn is_message_end(s: Seq<char>) -> bool {
    has_suffix(s, seq![')', ':', 'e', 'n', 'd', 'm'])
}

/// An option line: indented by at least one space, with some content.
pub open spec fn is_option_line(s: Seq<char>) -> bool {
    s.len() > 0 && s[0] == ' ' && trimmed(s).len() > 0
}

/// The classification a line receives at the top level, tried in the same
/// order the patterns are listed here.
#[derive(PartialEq, Eq, Structural, Clone, Copy, Debug)]
pub enum LineKind {
    Comment,
    Blank,
    PollStart,
    QuestionStart,
    McPollStart,
    ConfigStart,
    MessageStart,
    Unknown,
}

pub open spec fn classify_line(s: Seq<char>) -> LineKind {
    if is_comment(s) {
        LineKind::Comment
    } else if is_blank(s) {
        LineKind::Blank
    } else if is_poll_start(s) {
        LineKind::PollStart
    } else if is_question_start(s) {
        LineKind::QuestionStart
    } else if is_mcpoll_start(s) {
        LineKind::McPollStart
    } else if is_config_start(s) {
        LineKind::ConfigStart
    } else if is_message_start(s) {
        LineKind::MessageStart
    } else {
        LineKind::Unknown
    }
}

/// Classifies one line; the cursor is never touched here.
pub fn classify(line: &str) -> (k: LineKind)
    ensures
        k == classify_line(line@),
{
    proof {
        reveal_strlit("//");
        reveal_strlit("p:");
        reveal_strlit("q:");
        reveal_strlit("mcp:");
        reveal_strlit("config:");
        reveal_strlit("m:(");
        assert("//"@ =~= seq!['/', '/']);
        assert("p:"@ =~= seq!['p', ':']);
        assert("q:"@ =~= seq!['q', ':']);
        assert("mcp:"@ =~= seq!['m', 'c', 'p', ':']);
        assert("config:"@ =~= seq!['c', 'o', 'n', 'f', 'i', 'g', ':']);
        assert("m:("@ =~= seq!['m', ':', '(']);
    }
    let t = trim_of(line);
    if str_has_prefix(t.as_str(), "//") {
        LineKind::Comment
    } else if t.as_str().unicode_len() == 0 {
        LineKind::Blank
    } else if str_has_prefix(line, "p:") {
        LineKind::PollStart
    } else if str_has_prefix(line, "q:") {
        LineKind::QuestionStart
    } else if str_has_prefix(line, "mcp:") {
        LineKind::McPollStart
    } else if str_has_prefix(line, "config:") {
        LineKind::ConfigStart
    } else if str_has_prefix(line, "m:(") {
        LineKind::MessageStart
    } else {
        LineKind::Unknown
    }
}

/// Message-end test in executable code.
pub fn line_ends_message(line: &str) -> (r: bool)
    ensures
        r == is_message_end(line@),
{
    proof {
        reveal_strlit("):endm");
        assert("):endm"@ =~= seq![')', ':', 'e', 'n', 'd', 'm']);
    }
    str_has_suffix(line, "):endm")
}

/// Option-line test in executable code.
pub fn line_is_option(line: &str) -> (r: bool)
    ensures
        r == is_option_line(line@),
{
    let n = line.unicode_len();
    if n == 0 {
        return false;
    }
    if line.get_char(0) != ' ' {
        return false;
    }
    let t = trim_of(line);
    t.as_str().unicode_len() > 0
}

/// The question text captured by a section header: what follows the keyword,
/// trimmed.
pub open spec fn header_rest(s: Seq<char>, k: int) -> Seq<char> {
    trimmed(s.skip(k))
}

/// Extracts the header capture after a keyword of `prefix_len` characters.
pub fn header_text(line: &str, prefix_len: usize) -> (r: String)
    requires
        prefix_len <= line@.len(),
    ensures
        r@ == header_rest(line@, prefix_len as int),
{
    let n = line.unicode_len();
    let rest = line.substring_char(prefix_len, n);
    trim_of(rest)
}

/// The note marker that may follow a question's text.
pub open spec fn note_marker() -> Seq<char> {
    seq!['<', 'N', 'O', 'T', 'E', ':']
}

/// `p` stands at position `i` of `s`.
pub open spec fn match_at(s: Seq<char>, p: Seq<char>, i: int) -> bool {
    0 <= i && i + p.len() <= s.len() && s.subrange(i, i + p.len()) == p
}

/// The first position at or after `from` where the note marker stands, or
/// `-1`.
pub open spec fn first_note_idx(s: Seq<char>, from: int) -> int
    decreases s.len() - from,
{
    if from < 0 || from + note_marker().len() > s.len() {
        -1
    } else if match_at(s, note_marker(), from) {
        from
    } else {
        first_note_idx(s, from + 1)
    }
}

/// Finds the note marker in executable code.
pub fn find_note_marker(s: &str) -> (r: Option<usize>)
    ensures
        r is Some <==> first_note_idx(s@, 0) >= 0,
        r is Some ==> r->Some_0 == first_note_idx(s@, 0) && r->Some_0 + 6 <= s@.len(),
{
    let n = s.unicode_len();
    if n < 6 {
        return None;
    }
    let mut i: usize = 0;
    while i <= n - 6
        invariant
            n == s@.len(),
            6 <= n,
            0 <= i <= n - 5,
            first_note_idx(s@, 0) == first_note_idx(s@, i as int),
        decreases n - i,
    {
        let hit = s.get_char(i) == '<' && s.get_char(i + 1) == 'N' && s.get_char(i + 2) == 'O'
            && s.get_char(i + 3) == 'T' && s.get_char(i + 4) == 'E' && s.get_char(i + 5) == ':';
        proof {
            if hit {
                assert(s@.subrange(i as int, i + 6) =~= note_marker());
            } else if s@.subrange(i as int, i + 6) == note_marker() {
                assert(s@[i as int] == s@.subrange(i as int, i + 6)[0]);
                assert(s@[i + 1] == s@.subrange(i as int, i + 6)[1]);
                assert(s@[i + 2] == s@.subrange(i as int, i + 6)[2]);
                assert(s@[i + 3] == s@.subrange(i as int, i + 6)[3]);
                assert(s@[i + 4] == s@.subrange(i as int, i + 6)[4]);
                assert(s@[i + 5] == s@.subrange(i as int, i + 6)[5]);
                assert(false);
            }
        }
        if hit {
            return Some(i);
        }
        i += 1;
    }
    None
}

/// How a `q:` header splits into question text and an optional note.  A note
/// without its closing `>` fails open: the whole capture stays question
/// text.
pub open spec fn question_parts(t: Seq<char>) -> (Seq<char>, Option<Seq<char>>) {
    let p = first_note_idx(t, 0);
    if p < 0 {
        (t, None)
    } else {
        let nt = trimmed(t.skip(p + 6));
        if nt.len() > 0 && nt.last() == '>' {
            (trimmed(t.take(p)), Some(nt.drop_last()))
        } else {
            (t, None)
        }
    }
}

/// Splits an already-trimmed question header capture into question text and
/// optional note.
pub fn split_note(t: &str) -> (r: (String, Option<String>))
    ensures
        r.0@ == question_parts(t@).0,
        r.1 is Some <==> question_parts(t@).1 is Some,
        r.1 is Some ==> r.1->Some_0@ == question_parts(t@).1->Some_0,
{
    let n = t.unicode_len();
    match find_note_marker(t) {
        None => (String::from_str(t), None),
        Some(p) => {
            let after = t.substring_char(p + 6, n);
            let nt = trim_of(after);
            let m = nt.as_str().unicode_len();
            if m > 0 && nt.as_str().get_char(m - 1) == '>' {
                let note = nt.as_str().substring_char(0, m - 1);
                proof {
                    assert(note@ =~= trimmed(t@.skip(p + 6)).drop_last());
                }
                let before = t.substring_char(0, p);
                let q = trim_of(before);
                proof {
                    assert(t@.subrange(0, p as int) =~= t@.take(p as int));
                }
                (q, Some(String::from_str(note)))
            } else {
                (String::from_str(t), None)
            }
        },
    }
}

} // verus!
