//! The line cursor: sequential access to the input's lines with exactly one
//! line of rewind, plus the file-kind check applied before parsing starts.

use vstd::prelude::*;
use crate::text::{last_index_of, lemma_last_index_of, last_index_in};

verus! {

/// What a path handed to the tool turned out to be.
#[derive(PartialEq, Eq, Structural, Clone, Copy, Debug)]
pub enum FileState {
    /// file type is .mcq
    McqpFile,
    /// file type is not .mcq
    NotMcqpFile,
    /// file not found
    NotFound,
}

/// The char index right after the last `/` of `s`: where the file name
/// component starts.
pub open spec fn name_start(s: Seq<char>) -> int {
    last_index_of(s, '/') + 1
}

/// Whether the file name component of `s` carries the `.mcq` extension:
/// the name's last `.` is neither missing nor leading, and exactly `mcq`
/// follows it.
pub open spec fn has_mcq_extension(s: Seq<char>) -> bool {
    let name = s.skip(name_start(s));
    let dot = last_index_of(name, '.');
    &&& dot > 0
    &&& name.skip(dot + 1) == seq!['m', 'c', 'q']
}

/// What `state` returns for a given path and existence test.
pub open spec fn spec_state(file: Seq<char>, is_file: bool) -> FileState {
    if !is_file {
        FileState::NotFound
    } else if has_mcq_extension(file) {
        FileState::McqpFile
    } else {
        FileState::NotMcqpFile
    }
}

/// Classifies the path of the input file.  Whether the path names an
/// existing regular file is established by the caller, which owns all file
/// system access; this function owns the extension rule.
pub fn state(file: String, is_file: bool) -> (r: FileState)
    ensures
        r == spec_state(file@, is_file),
{
    if !is_file {
        return FileState::NotFound;
    }
    let s = file.as_str();
    let n = s.unicode_len();
    proof {
        lemma_last_index_of(s@, '/');
    }
    let start: usize = match last_index_in(s, '/') {
        Some(i) => i + 1,
        None => 0,
    };
    let name = s.substring_char(start, n);
    assert(name@ == s@.skip(name_start(s@)));
    match last_index_in(name, '.') {
        None => FileState::NotMcqpFile,
        Some(dot) => {
            if dot == 0 {
                return FileState::NotMcqpFile;
            }
            proof {
                lemma_last_index_of(name@, '.');
            }
            let m = name.unicode_len();
            let ext_ok = m - dot == 4 && name.get_char(dot + 1) == 'm' && name.get_char(dot + 2)
                == 'c' && name.get_char(dot + 3) == 'q';
            proof {
                let target = seq!['m', 'c', 'q'];
                if ext_ok {
                    assert(name@.skip(dot + 1) =~= target);
                } else if name@.skip(dot + 1) == target {
                    assert(name@.skip(dot + 1).len() == 3);
                    assert(name@[dot + 1] == name@.skip(dot + 1)[0]);
                    assert(name@[dot + 2] == name@.skip(dot + 1)[1]);
                    assert(name@[dot + 3] == name@.skip(dot + 1)[2]);
                    assert(false);
                }
            }
            if ext_ok {
                FileState::McqpFile
            } else {
                FileState::NotMcqpFile
            }
        },
    }
}

/// Rewindable, line-at-a-time access to the input.  The caller reads the
/// underlying source into `lines` up front; a read failure there is fatal
/// and reported once, before a reader exists.
pub struct FileReader {
    /// The file lines.
    pub lines: Vec<String>,
    /// The number of lines consumed so far; also the index of the next line.
    pub current_position: usize,
}

impl FileReader {
    /// A reader over the given lines, positioned before the first.
    pub fn new(lines: Vec<String>) -> (r: FileReader)
        ensures
            r.lines == lines,
            r.current_position == 0,
    {
        FileReader { lines, current_position: 0 }
    }

    /// Read the next line in the file.
    pub fn next_line(&mut self) -> (r: Option<String>)
        ensures
            final(self).lines == old(self).lines,
            old(self).current_position < old(self).lines.len() ==> {
                &&& final(self).current_position == old(self).current_position + 1
                &&& r is Some
                &&& r->Some_0@ == old(self).lines@[old(self).current_position as int]@
            },
            old(self).current_position >= old(self).lines.len() ==> {
                &&& r is None
                &&& final(self).current_position == old(self).current_position
            },
    {
        if self.current_position < self.lines.len() {
            let line = self.lines[self.current_position].clone();
            self.current_position += 1;
            Some(line)
        } else {
            None
        }
    }

    /// Move the line pointer back exactly one line: allowed whenever a line
    /// was consumed, that is whenever the position is not already the
    /// oldest.
    pub fn back_to_previous(&mut self) -> (r: Option<bool>)
        ensures
            final(self).lines == old(self).lines,
            old(self).current_position > 0 ==> {
                &&& final(self).current_position == old(self).current_position - 1
                &&& r == Some(true)
            },
            old(self).current_position == 0 ==> {
                &&& final(self).current_position == old(self).current_position
                &&& r is None
            },
    {
        if self.current_position > 0 {
            self.current_position -= 1;
            Some(true)
        } else {
            None
        }
    }

    /// The 1-based number of the line consumed most recently.
    pub fn get_line_number(&self) -> (r: usize)
        ensures
            r == self.current_position,
    {
        self.current_position
    }

    /// Check if there is a next line.
    pub fn is_next_line(&self) -> (r: bool)
        ensures
            r == (self.current_position != self.lines.len()),
    {
        self.lines.len() != self.current_position
    }
}

} // verus!
