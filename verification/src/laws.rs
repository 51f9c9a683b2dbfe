//! The library's general guarantees, stated and proved once over the
//! parsing model: well-formed sections parse exactly, the auto-numbering
//! counter numbers consecutively, and the escaping pass touches only
//! genuinely unbalanced markers.

use vstd::prelude::*;
use crate::text::{trimmed, trim_front};
use crate::grammar::{
    has_prefix,
    header_rest,
    question_parts,
    is_option_line,
    is_poll_start,
    is_mcpoll_start,
    is_question_start,
    classify_line,
    LineKind,
};
use crate::poll::{counter_prefix, with_counter};
use crate::question::question_option_parts;
use crate::message::{
    EscapeState,
    initial_escape_state,
    scan_from,
    escape_line,
    seal_body,
};
use crate::parser::{
    sp_poll_options,
    SpOptScan,
    sp_question_options,
    SpQOptScan,
    sp_poll_section,
    sp_question_section,
    sp_parse_from,
    SpSection,
    lemma_sp_poll_options_bounds,
    lemma_sp_question_options_bounds,
};

verus! {

/// Trimming never lengthens a text.
pub proof fn lemma_trimmed_len(s: Seq<char>)
    ensures
        trimmed(s).len() <= s.len(),
{
    crate::text::lemma_trim_front_skip(s);
    crate::text::lemma_trim_back_take(trim_front(s));
}

/// A run of `k` well-formed option lines starting at `s`, closed off by the
/// input's end or a non-option line, collects exactly their trimmed texts.
pub proof fn lemma_sp_poll_options_run(lines: Seq<Seq<char>>, s: int, k: int)
    requires
        0 <= s,
        0 <= k,
        s + k <= lines.len(),
        forall|j: int|
            s <= j < s + k ==> is_option_line(#[trigger] lines[j]) && 1 <= trimmed(
                lines[j],
            ).len() <= 100,
        s + k < lines.len() ==> !is_option_line(lines[s + k]),
    ensures
        match sp_poll_options(lines, s) {
            SpOptScan::Good { choices, next } => {
                &&& choices.len() == k
                &&& forall|j: int| 0 <= j < k ==> choices[j] == trimmed(#[trigger] lines[s + j])
                &&& next == s + k
            },
            SpOptScan::Fail { .. } => false,
        },
    decreases k,
{
    if k == 0 {
    } else {
        assert(is_option_line(lines[s]) && 1 <= trimmed(lines[s]).len() <= 100);
        lemma_sp_poll_options_run(lines, s + 1, k - 1);
        match sp_poll_options(lines, s + 1) {
            SpOptScan::Good { choices, next } => {
                assert forall|j: int| 0 <= j < k implies (seq![trimmed(lines[s])]
                    + choices)[j] == trimmed(#[trigger] lines[s + j]) by {
                    if j > 0 {
                        assert(choices[j - 1] == trimmed(lines[s + 1 + (j - 1)]));
                    }
                }
            },
            SpOptScan::Fail { .. } => {},
        }
    }
}

/// Every well-formed poll section parses exactly: the question is the
/// header capture unchanged, the choices are the option lines' trimmed
/// texts unchanged and in order, and a disabled counter stays disabled and
/// leaves the question unprefixed.
pub proof fn lemma_poll_section_exact(
    lines: Seq<Seq<char>>,
    i: int,
    k: int,
    is_mcp: bool,
    counter: (bool, usize),
)
    requires
        0 <= i,
        i + 1 + k <= lines.len(),
        1 <= k <= 10,
        !counter.0,
        is_mcp ==> is_mcpoll_start(lines[i]),
        !is_mcp ==> is_poll_start(lines[i]),
        1 <= header_rest(
            lines[i],
            if is_mcp {
                4
            } else {
                2
            },
        ).len() <= 255,
        forall|j: int|
            i + 1 <= j < i + 1 + k ==> is_option_line(#[trigger] lines[j]) && 1 <= trimmed(
                lines[j],
            ).len() <= 100,
        i + 1 + k < lines.len() ==> !is_option_line(lines[i + 1 + k]),
    ensures
        match sp_poll_section(lines, i, is_mcp, counter) {
            Ok((p, next, c2)) => {
                &&& p.question == header_rest(
                    lines[i],
                    if is_mcp {
                        4
                    } else {
                        2
                    },
                )
                &&& p.choices.len() == k
                &&& forall|j: int|
                    0 <= j < k ==> p.choices[j] == trimmed(#[trigger] lines[i + 1 + j])
                &&& p.is_mcp == is_mcp
                &&& c2 == counter
            },
            Err(_) => false,
        },
{
    lemma_sp_poll_options_run(lines, i + 1, k);
}

/// A run of `k` well-formed question option lines with exactly one marked
/// choice (none when `m == -1`) collects their stored texts and puts the
/// answer at the marked position.
pub proof fn lemma_sp_question_options_run(lines: Seq<Seq<char>>, s: int, k: int, m: int)
    requires
        0 <= s,
        0 <= k,
        s + k <= lines.len(),
        -1 <= m < k,
        forall|j: int|
            s <= j < s + k ==> is_option_line(#[trigger] lines[j]) && 1 <= question_option_parts(
                lines[j],
            ).0.len() <= 100,
        forall|j: int|
            s <= j < s + k ==> (question_option_parts(#[trigger] lines[j]).1 <==> j == s + m),
        s + k < lines.len() ==> !is_option_line(lines[s + k]),
    ensures
        match sp_question_options(lines, s) {
            SpQOptScan::Good { choices, answer, next } => {
                &&& choices.len() == k
                &&& forall|j: int|
                    0 <= j < k ==> choices[j] == question_option_parts(#[trigger] lines[s + j]).0
                &&& answer == m
                &&& next == s + k
            },
            SpQOptScan::Fail { .. } => false,
        },
    decreases k,
{
    if k == 0 {
    } else {
        assert(is_option_line(lines[s]) && 1 <= question_option_parts(lines[s]).0.len() <= 100);
        assert(question_option_parts(lines[s]).1 <==> 0 == m);
        let m2: int = if m <= 0 {
            -1
        } else {
            m - 1
        };
        assert forall|j: int|
            s + 1 <= j < s + 1 + (k - 1) implies (question_option_parts(#[trigger] lines[j]).1
            <==> j == s + 1 + m2) by {
            assert(question_option_parts(lines[j]).1 <==> j == s + m);
        }
        lemma_sp_question_options_run(lines, s + 1, k - 1, m2);
        match sp_question_options(lines, s + 1) {
            SpQOptScan::Good { choices, answer, next } => {
                assert forall|j: int| 0 <= j < k implies (seq![question_option_parts(lines[s]).0]
                    + choices)[j] == question_option_parts(#[trigger] lines[s + j]).0 by {
                    if j > 0 {
                        assert(choices[j - 1] == question_option_parts(lines[s + 1 + (j - 1)]).0);
                    }
                }
            },
            SpQOptScan::Fail { .. } => {},
        }
    }
}

/// Every well-formed question section with exactly one marked choice parses
/// exactly: the answer is the zero-based position of the marked choice
/// among the stored choices, each stored choice is its line's capture with
/// the sentinel stripped (so the marked line's stored text is strictly
/// shorter than its trimmed line), and a disabled counter leaves the
/// question unprefixed.
pub proof fn lemma_question_section_exact(
    lines: Seq<Seq<char>>,
    i: int,
    k: int,
    m: int,
    counter: (bool, usize),
)
    requires
        0 <= i,
        i + 1 + k <= lines.len(),
        2 <= k <= 10,
        0 <= m < k,
        !counter.0,
        is_question_start(lines[i]),
        1 <= question_parts(header_rest(lines[i], 2)).0.len() <= 255,
        match question_parts(header_rest(lines[i], 2)).1 {
            Some(n) => 1 <= n.len() <= 200,
            None => true,
        },
        forall|j: int|
            i + 1 <= j < i + 1 + k ==> is_option_line(#[trigger] lines[j]) && 1
                <= question_option_parts(lines[j]).0.len() <= 100,
        forall|j: int|
            i + 1 <= j < i + 1 + k ==> (question_option_parts(#[trigger] lines[j]).1 <==> j == i + 1
                + m),
        i + 1 + k < lines.len() ==> !is_option_line(lines[i + 1 + k]),
    ensures
        match sp_question_section(lines, i, counter) {
            Ok((qn, next, c2)) => {
                &&& qn.question == question_parts(header_rest(lines[i], 2)).0
                &&& qn.note == question_parts(header_rest(lines[i], 2)).1
                &&& qn.choices.len() == k
                &&& forall|j: int|
                    0 <= j < k ==> qn.choices[j] == question_option_parts(
                        #[trigger] lines[i + 1 + j],
                    ).0
                &&& qn.answer == m
                &&& qn.choices[m].len() < trimmed(lines[i + 1 + m]).len()
                &&& c2 == counter
            },
            Err(_) => false,
        },
{
    lemma_sp_question_options_run(lines, i + 1, k, m);
    assert(question_option_parts(lines[i + 1 + m]).1);
    let t = trimmed(lines[i + 1 + m]);
    lemma_trimmed_len(t.drop_last());
    assert(question_option_parts(lines[i + 1 + m]).0 == trimmed(t.drop_last()));
}

/// How many times `c` occurs in `s`.
pub open spec fn count_char(s: Seq<char>, c: char) -> int
    decreases s.len(),
{
    if s.len() == 0 {
        0
    } else {
        let here: int = if s.last() == c {
            1
        } else {
            0
        };
        count_char(s.drop_last(), c) + here
    }
}

pub proof fn lemma_count_char_nonneg(s: Seq<char>, c: char)
    ensures
        count_char(s, c) >= 0,
    decreases s.len(),
{
    if s.len() > 0 {
        lemma_count_char_nonneg(s.drop_last(), c);
    }
}

/// Occurrences split over a cut.
pub proof fn lemma_count_char_split(s: Seq<char>, c: char, a: int)
    requires
        0 <= a <= s.len(),
    ensures
        count_char(s, c) == count_char(s.take(a), c) + count_char(s.skip(a), c),
    decreases s.len(),
{
    if a == s.len() {
        assert(s.take(a) =~= s);
        assert(s.skip(a) =~= Seq::<char>::empty());
    } else {
        lemma_count_char_split(s.drop_last(), c, a);
        assert(s.drop_last().take(a) =~= s.take(a));
        assert(s.drop_last().skip(a) =~= s.skip(a).drop_last());
        assert(s.skip(a).last() == s.last());
    }
}

/// Trimming cannot add occurrences of a non-whitespace character.
pub proof fn lemma_count_char_trimmed(s: Seq<char>, c: char)
    ensures
        count_char(trimmed(s), c) <= count_char(s, c),
{
    crate::text::lemma_trim_front_skip(s);
    let a = crate::text::leading_spaces(s);
    lemma_count_char_split(s, c, a);
    lemma_count_char_nonneg(s.take(a), c);
    let t = s.skip(a);
    crate::text::lemma_trim_back_take(t);
    let b = t.len() - crate::text::trailing_spaces(t);
    lemma_count_char_split(t, c, b);
    lemma_count_char_nonneg(t.skip(b), c);
}

/// A marked option line carrying its sentinel `*` and no other `*` stores a
/// text in which the marker character never appears.
pub proof fn lemma_sentinel_not_stored(line: Seq<char>)
    requires
        question_option_parts(line).1,
        count_char(trimmed(line), '*') == 1,
    ensures
        count_char(question_option_parts(line).0, '*') == 0,
{
    let t = trimmed(line);
    assert(t.len() > 0 && t.last() == '*');
    assert(count_char(t.drop_last(), '*') == 0);
    lemma_count_char_trimmed(t.drop_last(), '*');
    lemma_count_char_nonneg(question_option_parts(line).0, '*');
}

/// How a section list looks when the counter numbers it from `v` on: each
/// poll or question in order carries the `"[<v+offset>] "` prefix, and a
/// message leaves the numbering untouched.
pub open spec fn numbered_from(sections: Seq<SpSection>, v: nat) -> bool
    decreases sections.len(),
{
    if sections.len() == 0 {
        true
    } else {
        match sections[0] {
            SpSection::Poll(p) => has_prefix(p.question, counter_prefix(v)) && numbered_from(
                sections.drop_first(),
                v + 1,
            ),
            SpSection::Question(q) => has_prefix(q.question, counter_prefix(v)) && numbered_from(
                sections.drop_first(),
                v + 1,
            ),
            SpSection::Message(_) => numbered_from(sections.drop_first(), v),
        }
    }
}

/// With the counter enabled at value `v` and no further config block in
/// sight, a successful parse numbers its polls and questions `v`, `v+1`,
/// `v+2`, … in document order.
pub proof fn lemma_counter_numbering(lines: Seq<Seq<char>>, i: int, counter: (bool, usize))
    requires
        0 <= i <= lines.len(),
        counter.0,
        forall|j: int| i <= j < lines.len() ==> classify_line(#[trigger] lines[j]) != LineKind::ConfigStart,
        sp_parse_from(lines, i, counter) is Ok,
    ensures
        match sp_parse_from(lines, i, counter) {
            Ok(doc) => numbered_from(doc.sections, counter.1 as nat),
            Err(_) => true,
        },
    decreases lines.len() - i, 1int,
{
    if i >= lines.len() {
    } else {
        match classify_line(lines[i]) {
            LineKind::Comment => {
                lemma_counter_numbering(lines, i + 1, counter);
            },
            LineKind::Blank => {
                lemma_counter_numbering(lines, i + 1, counter);
            },
            LineKind::PollStart => {
                lemma_counter_prefix_step(lines, i, false, counter);
            },
            LineKind::McPollStart => {
                lemma_counter_prefix_step(lines, i, true, counter);
            },
            LineKind::QuestionStart => {
                match sp_question_section(lines, i, counter) {
                    Err(_) => {},
                    Ok((qn, next, c2)) => {
                        assert(qn.question == with_counter(counter.1 as nat, question_parts(
                            header_rest(lines[i], 2),
                        ).0));
                        assert(has_prefix(qn.question, counter_prefix(counter.1 as nat))) by {
                            assert(qn.question.subrange(
                                0,
                                counter_prefix(counter.1 as nat).len() as int,
                            ) =~= counter_prefix(counter.1 as nat));
                        }
                        lemma_sp_question_options_bounds(lines, i + 1);
                        lemma_counter_numbering(lines, next, c2);
                        match sp_parse_from(lines, next, c2) {
                            Ok(doc) => {
                                assert((seq![SpSection::Question(qn)]
                                    + doc.sections).drop_first() =~= doc.sections);
                            },
                            Err(_) => {},
                        }
                    },
                }
            },
            LineKind::ConfigStart => {
                assert(false);
            },
            LineKind::MessageStart => {
                match crate::message::sp_parse_message(lines, i + 1, lines[i]) {
                    Err(_) => {},
                    Ok((body, next)) => {
                        crate::parser::lemma_sp_parse_message_bounds(lines, i + 1, lines[i]);
                        lemma_counter_numbering(lines, next, counter);
                        match sp_parse_from(lines, next, counter) {
                            Ok(doc) => {
                                assert((seq![SpSection::Message(body)]
                                    + doc.sections).drop_first() =~= doc.sections);
                            },
                            Err(_) => {},
                        }
                    },
                }
            },
            LineKind::Unknown => {},
        }
    }
}

/// The poll step of `lemma_counter_numbering`.
proof fn lemma_counter_prefix_step(
    lines: Seq<Seq<char>>,
    i: int,
    is_mcp: bool,
    counter: (bool, usize),
)
    requires
        0 <= i < lines.len(),
        counter.0,
        forall|j: int| i <= j < lines.len() ==> classify_line(#[trigger] lines[j]) != LineKind::ConfigStart,
        classify_line(lines[i]) == (if is_mcp {
            LineKind::McPollStart
        } else {
            LineKind::PollStart
        }),
        sp_parse_from(lines, i, counter) is Ok,
    ensures
        match sp_parse_from(lines, i, counter) {
            Ok(doc) => numbered_from(doc.sections, counter.1 as nat),
            Err(_) => true,
        },
    decreases lines.len() - i, 0int,
{
    match sp_poll_section(lines, i, is_mcp, counter) {
        Err(_) => {},
        Ok((p, next, c2)) => {
            assert(p.question == with_counter(counter.1 as nat, header_rest(
                lines[i],
                if is_mcp {
                    4
                } else {
                    2
                },
            )));
            assert(has_prefix(p.question, counter_prefix(counter.1 as nat))) by {
                assert(p.question.subrange(0, counter_prefix(counter.1 as nat).len() as int)
                    =~= counter_prefix(counter.1 as nat));
            }
            lemma_sp_poll_options_bounds(lines, i + 1);
            lemma_counter_numbering(lines, next, c2);
            match sp_parse_from(lines, next, c2) {
                Ok(doc) => {
                    assert((seq![SpSection::Poll(p)] + doc.sections).drop_first()
                        =~= doc.sections);
                },
                Err(_) => {},
            }
        },
    }
}

/// A line whose markers are balanced — its scan brings every marker flag
/// back to closed — passes the escaping pass unchanged: escaping is only
/// ever applied to a genuinely unbalanced marker.
pub proof fn lemma_escape_balanced(line: Seq<char>, st: EscapeState)
    requires
        ({
            let e = scan_from(line, 0, st);
            !e.star_open && !e.backtick_open && !e.underscore_open && !e.square_bracket_open
        }),
    ensures
        escape_line(line, st).0 == line,
{
}

/// Occurrences counted from the front.
pub proof fn lemma_count_char_first(s: Seq<char>, c: char)
    requires
        s.len() > 0,
    ensures
        count_char(s, c) == count_char(s.drop_first(), c) + if s[0] == c {
            1int
        } else {
            0int
        },
    decreases s.len(),
{
    if s.len() == 1 {
        assert(s.drop_first() =~= Seq::<char>::empty());
        assert(s.drop_last() =~= Seq::<char>::empty());
    } else {
        lemma_count_char_first(s.drop_last(), c);
        assert(s.drop_first().drop_last() =~= s.drop_last().drop_first());
        assert(s.drop_last()[0] == s[0]);
        assert(s.drop_first().last() == s.last());
    }
}

/// On a line without backticks the scan is plain toggling: no fence ever
/// opens, and the emphasis and underline flags end up flipped exactly when
/// their marker occurs an odd number of times; brackets, absent too, leave
/// their flag alone.
pub proof fn lemma_scan_no_fence(line: Seq<char>, i: int, st: EscapeState)
    requires
        0 <= i <= line.len(),
        st.skip == 0,
        !st.code_block_open,
        forall|j: int| i <= j < line.len() ==> #[trigger] line[j] != '`',
    ensures
        ({
            let e = scan_from(line, i, st);
            &&& !e.code_block_open
            &&& e.skip == 0
            &&& e.backtick_open == st.backtick_open
            &&& e.star_open == (st.star_open != (count_char(line.skip(i), '*') % 2 == 1))
            &&& e.underscore_open == (st.underscore_open != (count_char(line.skip(i), '_') % 2
                == 1))
            &&& (forall|j: int| i <= j < line.len() ==> #[trigger] line[j] != '[' && line[j] != ']')
                ==> e.square_bracket_open == st.square_bracket_open
        }),
    decreases line.len() - i,
{
    if i >= line.len() {
        assert(line.skip(i) =~= Seq::<char>::empty());
    } else {
        let st2 = crate::message::scan_step(line, i, st);
        lemma_scan_no_fence(line, i + 1, st2);
        lemma_count_char_first(line.skip(i), '*');
        lemma_count_char_first(line.skip(i), '_');
        assert(line.skip(i).drop_first() =~= line.skip(i + 1));
        assert(line.skip(i)[0] == line[i]);
    }
}

/// The count form of the balance law: a line without backticks, with evenly
/// many `*` and evenly many `_` and no brackets at all, passes the escaping
/// pass unchanged from the clean state.
pub proof fn lemma_balanced_by_counts(line: Seq<char>)
    requires
        forall|j: int| 0 <= j < line.len() ==> #[trigger] line[j] != '`',
        forall|j: int| 0 <= j < line.len() ==> #[trigger] line[j] != '[' && line[j] != ']',
        count_char(line, '*') % 2 == 0,
        count_char(line, '_') % 2 == 0,
    ensures
        escape_line(line, initial_escape_state()).0 == line,
        balanced_line(line),
{
    lemma_scan_no_fence(line, 0, initial_escape_state());
    assert(line.skip(0) =~= line);
    lemma_escape_balanced(line, initial_escape_state());
}

/// A line is balanced when its scan, started from the clean state, hands
/// the clean state back: every marker closed again, no fence left open.
pub open spec fn balanced_line(l: Seq<char>) -> bool {
    scan_from(l, 0, initial_escape_state()) == initial_escape_state()
}

/// The lines of a message joined as they stand, with no escaping at all:
/// what the collection would accumulate if it copied verbatim.  The
/// terminator line contributes nothing.
pub open spec fn raw_join(lines: Seq<Seq<char>>, i: int) -> Seq<char>
    decreases lines.len() - i,
{
    if i < 0 || i >= lines.len() {
        Seq::empty()
    } else if crate::grammar::is_message_end(lines[i]) {
        Seq::empty()
    } else {
        lines[i].push('\n') + raw_join(lines, i + 1)
    }
}

/// A message body whose every line is balanced is collected verbatim: the
/// escaping pass inserts no backslash anywhere, and the fence state comes
/// out closed, so no closing fence is appended either.
pub proof fn lemma_message_balanced_unchanged(lines: Seq<Seq<char>>, i: int)
    requires
        0 <= i <= lines.len(),
        forall|j: int| i <= j < lines.len() ==> balanced_line(#[trigger] lines[j]),
    ensures
        match crate::message::sp_message_lines(lines, i, initial_escape_state()) {
            crate::message::SpMsgScan::Done { raw, st, next } => {
                &&& raw == raw_join(lines, i)
                &&& st == initial_escape_state()
            },
            crate::message::SpMsgScan::Unterminated => true,
        },
    decreases lines.len() - i,
{
    if 0 <= i < lines.len() {
        if !crate::grammar::is_message_end(lines[i]) {
            lemma_escape_balanced(lines[i], initial_escape_state());
            lemma_message_balanced_unchanged(lines, i + 1);
        }
    }
}

/// A body still inside a fenced code block when the terminator arrives gets
/// exactly one closing fence appended at its end — and nothing else.
pub proof fn lemma_fence_closed_once(raw: Seq<char>, st: EscapeState)
    requires
        st.code_block_open,
    ensures
        seal_body(raw, st) == raw + seq!['`', '`', '`'],
        seal_body(raw, st).len() == raw.len() + 3,
{
}

} // verus!
