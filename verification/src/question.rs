//! The question section: a quiz question with 2–10 choices, exactly one of
//! them marked correct by a trailing `*`, and an optional inline note.

use vstd::prelude::*;
use crate::text::trimmed;
use crate::grammar::{header_rest, question_parts};
use crate::poll::with_counter;

verus! {

/// How an option line of a question splits into stored text and the
/// correct-answer mark: a trailing `*` is recognized, stripped, and the
/// remainder trimmed again.
pub open spec fn question_option_parts(line: Seq<char>) -> (Seq<char>, bool) {
    let t = trimmed(line);
    if t.len() > 0 && t.last() == '*' {
        (trimmed(t.drop_last()), true)
    } else {
        (t, false)
    }
}

pub struct Question {
    /// The question string
    pub question: String,
    /// The choices list
    pub choices: Vec<String>,
    /// The correct choice index, `-1` while none is marked
    pub answer: i8,
    /// The question note
    pub note: Option<String>,
}

impl Question {
    /// An empty question, waiting for its header and options.
    pub fn new() -> (r: Question)
        ensures
            r.question@ == Seq::<char>::empty(),
            r.choices@ == Seq::<String>::empty(),
            r.answer == -1,
            r.note is None,
    {
        Question { question: String::new(), choices: Vec::new(), answer: -1, note: None }
    }

    /// Return a cloned question.
    pub fn question(&self) -> (r: String)
        ensures
            r == self.question,
    {
        self.question.clone()
    }

    /// Return the question length in characters.
    pub fn question_len(&self) -> (r: usize)
        ensures
            r == self.question@.len(),
    {
        self.question.as_str().unicode_len()
    }

    /// Return a cloned choices list.
    pub fn choices(&self) -> (r: Vec<String>)
        ensures
            r@ == self.choices@,
    {
        let mut r: Vec<String> = Vec::new();
        let mut i: usize = 0;
        while i < self.choices.len()
            invariant
                0 <= i <= self.choices.len(),
                r@ =~= self.choices@.take(i as int),
            decreases self.choices.len() - i,
        {
            r.push(self.choices[i].clone());
            i += 1;
        }
        proof {
            assert(self.choices@.take(self.choices.len() as int) =~= self.choices@);
        }
        r
    }

    /// Return the answer index.
    pub fn answer(&self) -> (r: i8)
        ensures
            r == self.answer,
    {
        self.answer
    }

    /// Return a cloned note, when one was captured.
    pub fn note(&self) -> (r: Option<String>)
        ensures
            r is Some <==> self.note is Some,
            r is Some ==> r->Some_0 == self.note->Some_0,
    {
        match &self.note {
            Some(n) => Some(n.clone()),
            None => None,
        }
    }

    /// Takes question text and optional note out of a `q:` header line.
    pub fn parse_question(&mut self, line: &str)
        requires
            2 <= line@.len(),
        ensures
            final(self).question@ == question_parts(header_rest(line@, 2)).0,
            final(self).note is Some <==> question_parts(header_rest(line@, 2)).1 is Some,
            final(self).note is Some ==> final(self).note->Some_0@ == question_parts(
                header_rest(line@, 2),
            ).1->Some_0,
            final(self).choices == old(self).choices,
            final(self).answer == old(self).answer,
    {
        let rest = crate::grammar::header_text(line, 2);
        let (q, note) = crate::grammar::split_note(rest.as_str());
        self.question = q;
        self.note = note;
    }

    /// Appends one option line; a trailing `*` marks the choice as the
    /// correct answer, at the index it receives here.
    pub fn parse_option(&mut self, line: &str)
        ensures
            final(self).choices.deep_view() == old(self).choices.deep_view().push(
                question_option_parts(line@).0,
            ),
            final(self).answer == if question_option_parts(line@).1 && old(
                self,
            ).choices@.len() < 128 {
                old(self).choices@.len() as i8
            } else {
                old(self).answer
            },
            final(self).question == old(self).question,
            final(self).note == old(self).note,
    {
        let t = crate::text::trim_of(line);
        let n = t.as_str().unicode_len();
        if n > 0 && t.as_str().get_char(n - 1) == '*' {
            let body = t.as_str().substring_char(0, n - 1);
            proof {
                assert(body@ =~= trimmed(line@).drop_last());
            }
            let stored = crate::text::trim_of(body);
            if self.choices.len() < 128 {
                self.answer = self.choices.len() as i8;
            }
            self.choices.push(stored);
        } else {
            self.choices.push(t);
        }
        proof {
            assert(self.choices.deep_view() =~= old(self).choices.deep_view().push(
                question_option_parts(line@).0,
            ));
        }
    }

    /// Check if the last option in the options list is valid: 1 to 100
    /// characters.
    pub fn is_last_option_valid(&self) -> (r: bool)
        ensures
            r == (self.choices@.len() > 0 && 1 <= self.choices@.last()@.len() <= 100),
    {
        if self.choices.len() == 0 {
            return false;
        }
        let len = self.choices[self.choices.len() - 1].as_str().unicode_len();
        1 <= len && len <= 100
    }

    /// Check the number of options and that an answer was marked: 2 to 10
    /// options, with a correct choice.
    pub fn is_options_valid(&self) -> (r: bool)
        ensures
            r == (2 <= self.choices@.len() <= 10 && self.answer != -1),
    {
        2 <= self.choices.len() && self.choices.len() <= 10 && self.answer != -1
    }

    /// Check the question length: 1 to 255 characters.
    pub fn is_question_valid(&self) -> (r: bool)
        ensures
            r == (1 <= self.question@.len() <= 255),
    {
        let n = self.question.as_str().unicode_len();
        1 <= n && n <= 255
    }

    /// Check if there is a note.
    pub fn is_note(&self) -> (r: bool)
        ensures
            r == (self.note is Some),
    {
        self.note.is_some()
    }

    /// Check the note length: 1 to 200 characters, when a note exists.
    pub fn is_note_valid(&self) -> (r: bool)
        ensures
            r == (self.note is Some ==> 1 <= self.note->Some_0@.len() <= 200),
    {
        match &self.note {
            Some(n) => {
                let len = n.as_str().unicode_len();
                1 <= len && len <= 200
            },
            None => true,
        }
    }

    /// Prefixes the question with the counter value; refuses (and leaves the
    /// question unchanged) when that would push it past 255 characters.
    pub fn add_count(&mut self, counter: usize) -> (ok: bool)
        ensures
            ok == (with_counter(counter as nat, old(self).question@).len() <= 255),
            ok ==> final(self).question@ == with_counter(counter as nat, old(self).question@),
            !ok ==> final(self).question == old(self).question,
            final(self).choices == old(self).choices,
            final(self).answer == old(self).answer,
            final(self).note == old(self).note,
    {
        let prefix = crate::poll::counter_prefix_string(counter);
        let new_question = prefix.concat(self.question.as_str());
        if new_question.as_str().unicode_len() > 255 {
            return false;
        }
        self.question = new_question;
        true
    }
}

} // verus!
