//! The diagnostics formatter: renders a fatal parse error as a positioned,
//! human-readable report, and a suggested fix as the line after a minimal
//! edit.  Everything here builds strings; printing them is the caller's.

use vstd::prelude::*;
use crate::text::{dec_str, dec_str_signed, decimal_string, decimal_string_i64};
use crate::bot::{BotResult, Message};

verus! {

/// `s` written out `n` times.
pub open spec fn repeated(s: Seq<char>, n: nat) -> Seq<char>
    decreases n,
{
    if n == 0 {
        Seq::empty()
    } else {
        repeated(s, (n - 1) as nat) + s
    }
}

/// Builds `s` written out `n` times.
pub fn repeat_str(s: &str, n: usize) -> (r: String)
    ensures
        r@ == repeated(s@, n as nat),
{
    let mut r = String::new();
    let mut i: usize = 0;
    while i < n
        invariant
            0 <= i <= n,
            r@ == repeated(s@, i as nat),
        decreases n - i,
    {
        r = r.concat(s);
        i += 1;
    }
    r
}

/// The caret line under the offending line: the column's indent, a caret,
/// and the position message.
pub open spec fn caret_line(position_msg: Seq<char>, position: nat) -> Seq<char> {
    repeated(seq![' '], position) + seq!['^', ' '] + position_msg
}

/// The whole error report: the message, the file position, the offending
/// line in a gutter of the line number's width, and the caret line.
pub open spec fn error_report(
    msg: Seq<char>,
    position_msg: Seq<char>,
    file_path: Seq<char>,
    line: Seq<char>,
    line_number: nat,
    position: nat,
) -> Seq<char> {
    let num = dec_str(line_number);
    let pad = repeated(seq![' '], num.len());
    seq!['E', 'R', 'R', 'O', 'R', ':', ' '] + msg + seq!['\n'] + seq![' '] + pad + seq![
        ' ',
        '-',
        '-',
        '>',
        ' ',
    ] + file_path + seq![':'] + num + seq![':'] + dec_str(position) + seq!['\n'] + seq![' '] + pad
        + seq![' ', '|', '\n'] + seq![' '] + num + seq![' ', '|', ' '] + line + seq!['\n'] + seq![
        ' ',
    ] + pad + seq![' ', '|', ' '] + caret_line(position_msg, position) + seq!['\n', '\n']
}

/// The suggested-fix report: the line as it would look with `add` inserted
/// at the column, and a row of `+` marks under the insertion.
pub open spec fn fix_report(
    msg: Seq<char>,
    line: Seq<char>,
    add: Seq<char>,
    line_number: nat,
    position: nat,
) -> Seq<char> {
    let num = dec_str(line_number);
    let pad = repeated(seq![' '], num.len());
    let new_line = line.take(position as int) + add + line.skip(position as int);
    let marks = repeated(seq![' '], position) + repeated(seq!['+'], add.len());
    seq!['F', 'I', 'X', ':', ' '] + msg + seq!['\n'] + seq![' '] + pad + seq![' ', '|', '\n']
        + seq![' '] + num + seq![' ', '|', ' '] + new_line + seq!['\n'] + seq![' '] + pad + seq![
        ' ',
        '|',
        ' ',
    ] + marks + seq!['\n', '\n']
}

/// What `Display::bot_info` renders.
pub open spec fn bot_info_report(id: int, first_name: Seq<char>, username: Seq<char>) -> Seq<
    char,
> {
    seq!['I', 'D', ':', ' '] + dec_str_signed(id) + seq!['\n', 'N', 'a', 'm', 'e', ':', ' ']
        + first_name + seq!['\n', 'U', 's', 'e', 'r', 'n', 'a', 'm', 'e', ':', ' '] + username
        + seq!['\n']
}

/// What `Display::bot_chat_info` renders.
pub open spec fn bot_chat_info_report(
    chat_id: int,
    first_name: Seq<char>,
    username: Seq<char>,
    text: Seq<char>,
    chat_type: Seq<char>,
) -> Seq<char> {
    seq!['C', 'h', 'a', 't', ' ', 'I', 'D', ':', ' '] + dec_str_signed(chat_id) + seq![
        '\n',
        'N',
        'a',
        'm',
        'e',
        ':',
        ' ',
    ] + first_name + seq!['\n', 'U', 's', 'e', 'r', 'n', 'a', 'm', 'e', ':', ' '] + username
        + seq!['\n', 'M', 'e', 's', 's', 'a', 'g', 'e', ':', ' '] + text + seq![
        '\n',
        'C',
        'h',
        'a',
        't',
        ' ',
        'T',
        'y',
        'p',
        'e',
        ':',
        ' ',
    ] + chat_type + seq!['\n']
}

pub struct Display;

impl Display {
    /// Render the bot information.
    pub fn bot_info(info: &BotResult) -> (r: String)
        ensures
            r@ == bot_info_report(info.id as int, info.first_name@, info.username@),
    {
        proof {
            reveal_strlit("ID: ");
            reveal_strlit("\nName: ");
            reveal_strlit("\nUsername: ");
            reveal_strlit("\n");
        }
        let r = String::from_str("ID: ").concat(decimal_string_i64(info.id).as_str()).concat(
            "\nName: ",
        ).concat(info.first_name.as_str()).concat("\nUsername: ").concat(
            info.username.as_str(),
        ).concat("\n");
        proof {
            assert(r@ =~= bot_info_report(info.id as int, info.first_name@, info.username@));
        }
        r
    }

    /// Render the bot chat information.
    pub fn bot_chat_info(message: &Message) -> (r: String)
        ensures
            r@ == bot_chat_info_report(
                message.chat.id as int,
                message.chat.first_name@,
                message.chat.username@,
                message.text@,
                message.chat._type@,
            ),
    {
        proof {
            reveal_strlit("Chat ID: ");
            reveal_strlit("\nName: ");
            reveal_strlit("\nUsername: ");
            reveal_strlit("\nMessage: ");
            reveal_strlit("\nChat Type: ");
            reveal_strlit("\n");
        }
        let r = String::from_str("Chat ID: ").concat(
            decimal_string_i64(message.chat.id).as_str(),
        ).concat("\nName: ").concat(message.chat.first_name.as_str()).concat(
            "\nUsername: ",
        ).concat(message.chat.username.as_str()).concat("\nMessage: ").concat(
            message.text.as_str(),
        ).concat("\nChat Type: ").concat(message.chat._type.as_str()).concat("\n");
        proof {
            assert(r@ =~= bot_chat_info_report(
                message.chat.id as int,
                message.chat.first_name@,
                message.chat.username@,
                message.text@,
                message.chat._type@,
            ));
        }
        r
    }
}

pub struct DisplaySyntaxError;

impl DisplaySyntaxError {
    /// Render the syntax error report.
    pub fn error(
        msg: &str,
        position_msg: &str,
        file_path: &str,
        line: &str,
        line_number: usize,
        position: usize,
    ) -> (r: String)
        ensures
            r@ == error_report(
                msg@,
                position_msg@,
                file_path@,
                line@,
                line_number as nat,
                position as nat,
            ),
    {
        proof {
            reveal_strlit("ERROR: ");
            reveal_strlit("\n");
            reveal_strlit(" ");
            reveal_strlit(" --> ");
            reveal_strlit(":");
            reveal_strlit(" |\n");
            reveal_strlit(" | ");
            reveal_strlit("^ ");
            reveal_strlit("\n\n");
        }
        let num = decimal_string(line_number);
        let pad = repeat_str(" ", num.as_str().unicode_len());
        let caret = repeat_str(" ", position).concat("^ ").concat(position_msg);
        proof {
            assert(" "@ =~= seq![' ']);
            assert(caret@ =~= caret_line(position_msg@, position as nat));
        }
        let r = String::from_str("ERROR: ").concat(msg).concat("\n").concat(" ").concat(
            pad.as_str(),
        ).concat(" --> ").concat(file_path).concat(":").concat(num.as_str()).concat(":").concat(
            decimal_string(position).as_str(),
        ).concat("\n").concat(" ").concat(pad.as_str()).concat(" |\n").concat(" ").concat(
            num.as_str(),
        ).concat(" | ").concat(line).concat("\n").concat(" ").concat(pad.as_str()).concat(
            " | ",
        ).concat(caret.as_str()).concat("\n\n");
        proof {
            assert(r@ =~= error_report(
                msg@,
                position_msg@,
                file_path@,
                line@,
                line_number as nat,
                position as nat,
            ));
        }
        r
    }

    /// Render the suggested fix: the line with `add` inserted at the
    /// column, under a row of `+` marks.
    pub fn fix_add(msg: &str, line: &str, add: &str, line_number: usize, position: usize) -> (r:
        String)
        requires
            position <= line@.len(),
        ensures
            r@ == fix_report(msg@, line@, add@, line_number as nat, position as nat),
    {
        proof {
            reveal_strlit("FIX: ");
            reveal_strlit("\n");
            reveal_strlit(" ");
            reveal_strlit(" |\n");
            reveal_strlit(" | ");
            reveal_strlit("+");
            reveal_strlit("\n\n");
        }
        let num = decimal_string(line_number);
        let pad = repeat_str(" ", num.as_str().unicode_len());
        let n = line.unicode_len();
        let new_line = String::from_str(line.substring_char(0, position)).concat(add).concat(
            line.substring_char(position, n),
        );
        let marks = repeat_str(" ", position).concat(repeat_str("+", add.unicode_len()).as_str());
        proof {
            assert(" "@ =~= seq![' ']);
            assert("+"@ =~= seq!['+']);
            assert(new_line@ =~= line@.take(position as int) + add@ + line@.skip(position as int));
        }
        let r = String::from_str("FIX: ").concat(msg).concat("\n").concat(" ").concat(
            pad.as_str(),
        ).concat(" |\n").concat(" ").concat(num.as_str()).concat(" | ").concat(
            new_line.as_str(),
        ).concat("\n").concat(" ").concat(pad.as_str()).concat(" | ").concat(
            marks.as_str(),
        ).concat("\n\n");
        proof {
            assert(r@ =~= fix_report(msg@, line@, add@, line_number as nat, position as nat));
        }
        r
    }
}

} // verus!
