//! Yes/no confirmation prompts.

use vstd::prelude::*;

use crate::text::{eq_ignore_case, range_eq_ignore_case, trim, trim_bounds};

verus! {

/// A reply confirms when, with white space dropped at both ends and
/// lowercased, it reads `y` or `yes`.
pub open spec fn affirmative(reply: Seq<char>) -> bool {
    eq_ignore_case(trim(reply), seq!['y']) || eq_ignore_case(trim(reply), seq!['y', 'e', 's'])
}

/// Whether the reply to a prompt confirms.
pub fn is_affirmative(reply: &str) -> (r: bool)
    ensures
        r == affirmative(reply@),
{
    let (lo, hi) = trim_bounds(reply);
    proof {
        reveal_strlit("y");
        reveal_strlit("yes");
        assert("y"@ =~= seq!['y']);
        assert("yes"@ =~= seq!['y', 'e', 's']);
    }
    range_eq_ignore_case(reply, lo, hi, "y") || range_eq_ignore_case(reply, lo, hi, "yes")
}

/// The text a prompt is shown with: the question, then ` [y/N] `.
pub open spec fn prompt_text(prompt: Seq<char>) -> Seq<char> {
    prompt + " [y/N] "@
}

/// The line written to ask `prompt`.
pub fn prompt_line(prompt: &str) -> (r: String)
    ensures
        r@ == prompt_text(prompt@),
{
    String::from_str(prompt).concat(" [y/N] ")
}

/// The answer to a prompt, given what reading the reply gave: `false` when
/// the read failed, else whether the reply confirms.
pub open spec fn reply_confirms(reply: Option<Seq<char>>) -> bool {
    match reply {
        Some(s) => affirmative(s),
        None => false,
    }
}

/// The answer to a prompt, given what reading the reply gave (`None` when the
/// read failed).
pub fn confirm_reply(reply: Option<String>) -> (r: bool)
    ensures
        r == reply_confirms(reply.deep_view()),
{
    match reply {
        Some(s) => is_affirmative(s.as_str()),
        None => false,
    }
}

/// `Write::write_all` of `text`'s bytes, unchanged; an error of the writer is
/// dropped.
#[verifier::external_body]
fn write_text<W: std::io::Write>(writer: &mut W, text: &str) {
    let _ = writer.write_all(text.as_bytes());
}

/// Calls `Write::flush`; an error of the writer is dropped.
#[verifier::external_body]
fn flush_writer<W: std::io::Write>(writer: &mut W) {
    let _ = writer.flush();
}

/// Calls `BufRead::read_line` on an empty `String`: `Some` with what was read
/// (the line with its end of line, or nothing at the end of input), `None` when
/// the reader fails.  Nothing is promised of the text, which comes from the reader.
#[verifier::external_body]
fn read_reply<R: std::io::BufRead>(reader: &mut R) -> Option<String> {
    let mut input = String::new();
    match reader.read_line(&mut input) {
        Ok(_) => Some(input),
        Err(_) => None,
    }
}

/// Prompts on `writer` with `prompt_line(prompt)`, flushes it, and reads one
/// reply line from `reader`; the answer is `confirm_reply` of what the read
/// gave.  The reply comes from the reader, so nothing is promised of the answer
/// here: `prompt_line` and `confirm_reply` state the two halves.
pub fn confirm_with<R: std::io::BufRead, W: std::io::Write>(
    prompt: &str,
    reader: &mut R,
    writer: &mut W,
) -> bool {
    let line = prompt_line(prompt);
    write_text(writer, line.as_str());
    flush_writer(writer);
    let reply = read_reply(reader);
    confirm_reply(reply)
}

} // verus!
