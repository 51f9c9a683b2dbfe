//! The poll section: a question and 1–10 choices, single- or multi-choice.

use vstd::prelude::*;
use crate::text::{trimmed, dec_str};
use crate::grammar::header_rest;

verus! {

/// The `"[<value>] "` text that the auto-numbering counter puts in front of
/// a question.
pub open spec fn counter_prefix(v: nat) -> Seq<char> {
    seq!['['] + dec_str(v) + seq![']', ' ']
}

/// A question text with the counter prefix applied.
pub open spec fn with_counter(v: nat, q: Seq<char>) -> Seq<char> {
    counter_prefix(v) + q
}

/// Builds the `"[<value>] "` prefix in executable code.
pub fn counter_prefix_string(v: usize) -> (r: String)
    ensures
        r@ == counter_prefix(v as nat),
{
    proof {
        reveal_strlit("[");
        reveal_strlit("] ");
        assert("["@ =~= seq!['[']);
        assert("] "@ =~= seq![']', ' ']);
    }
    let num = crate::text::decimal_string(v);
    let r = String::from_str("[").concat(num.as_str()).concat("] ");
    proof {
        assert(r@ =~= counter_prefix(v as nat));
    }
    r
}

pub struct Poll {
    /// The poll question
    pub question: String,
    /// The poll choices
    pub choices: Vec<String>,
    /// Is the poll multiple choice
    pub is_mcp: bool,
}

impl Poll {
    /// An empty poll, waiting for its header and options.
    pub fn new() -> (r: Poll)
        ensures
            r.question@ == Seq::<char>::empty(),
            r.choices@ == Seq::<String>::empty(),
            !r.is_mcp,
    {
        Poll { question: String::new(), choices: Vec::new(), is_mcp: false }
    }

    /// Return a cloned question.
    pub fn question(&self) -> (r: String)
        ensures
            r == self.question,
    {
        self.question.clone()
    }

    /// Return a cloned choices list.
    pub fn choices(&self) -> (r: Vec<String>)
        ensures
            r@ == self.choices@,
    {
        let mut r: Vec<String> = Vec::new();
        let mut i: usize = 0;
        while i < self.choices.len()
            invariant
                0 <= i <= self.choices.len(),
                r@ =~= self.choices@.take(i as int),
            decreases self.choices.len() - i,
        {
            r.push(self.choices[i].clone());
            i += 1;
        }
        proof {
            assert(self.choices@.take(self.choices.len() as int) =~= self.choices@);
        }
        r
    }

    /// Return the choices length.
    pub fn choices_len(&self) -> (r: usize)
        ensures
            r == self.choices@.len(),
    {
        self.choices.len()
    }

    /// Takes the question capture out of a header line: everything after the
    /// keyword of `prefix_len` characters, trimmed.
    pub fn parse_question(&mut self, line: &str, prefix_len: usize)
        requires
            prefix_len <= line@.len(),
        ensures
            final(self).question@ == header_rest(line@, prefix_len as int),
            final(self).choices == old(self).choices,
            final(self).is_mcp == old(self).is_mcp,
    {
        self.question = crate::grammar::header_text(line, prefix_len);
    }

    /// Appends one option line's trimmed text to the choices.
    pub fn parse_option(&mut self, line: &str)
        ensures
            final(self).choices.deep_view() == old(self).choices.deep_view().push(trimmed(line@)),
            final(self).question == old(self).question,
            final(self).is_mcp == old(self).is_mcp,
    {
        let t = crate::text::trim_of(line);
        self.choices.push(t);
        proof {
            assert(self.choices.deep_view() =~= old(self).choices.deep_view().push(
                trimmed(line@),
            ));
        }
    }

    /// Check if the last option in the options list is valid: 1 to 100
    /// characters.
    pub fn is_last_option_valid(&self) -> (r: bool)
        ensures
            r == (self.choices@.len() > 0 && 1 <= self.choices@.last()@.len() <= 100),
    {
        if self.choices.len() == 0 {
            return false;
        }
        let len = self.choices[self.choices.len() - 1].as_str().unicode_len();
        1 <= len && len <= 100
    }

    /// Check the number of options: 1 to 10.
    pub fn is_options_valid(&self) -> (r: bool)
        ensures
            r == (1 <= self.choices@.len() <= 10),
    {
        1 <= self.choices.len() && self.choices.len() <= 10
    }

    /// Check the poll question length: 1 to 255 characters.
    pub fn is_question_valid(&self) -> (r: bool)
        ensures
            r == (1 <= self.question@.len() <= 255),
    {
        let n = self.question.as_str().unicode_len();
        1 <= n && n <= 255
    }

    /// Prefixes the question with the counter value; refuses (and leaves the
    /// poll unchanged) when that would push the question past 255
    /// characters.
    pub fn add_count(&mut self, counter: usize) -> (ok: bool)
        ensures
            ok == (with_counter(counter as nat, old(self).question@).len() <= 255),
            ok ==> final(self).question@ == with_counter(counter as nat, old(self).question@),
            !ok ==> final(self).question == old(self).question,
            final(self).choices == old(self).choices,
            final(self).is_mcp == old(self).is_mcp,
    {
        let prefix = counter_prefix_string(counter);
        let new_question = prefix.concat(self.question.as_str());
        if new_question.as_str().unicode_len() > 255 {
            return false;
        }
        self.question = new_question;
        true
    }
}

} // verus!
