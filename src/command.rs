//! Local command lines: `send <text>`, `leave`, and everything else.
use vstd::prelude::*;
use vstd::string::StringSliceAdditionalSpecFns;
use vstd::utf8::encode_utf8;
use crate::bytes::append_from;

verus! {

/// What `str::trim` makes of a line: the line without leading and trailing
/// whitespace.
pub uninterp spec fn trimmed(s: Seq<char>) -> Seq<char>;

/// Relies on str::trim, which removes leading and trailing whitespace.
#[verifier::external_body]
fn trim_line(line: &str) -> (r: &str)
    ensures
        r@ == trimmed(line@),
{
    line.trim()
}

/// A local command, as typed by the user.
#[derive(Debug)]
pub enum Command {
    /// `send <text>`: the UTF-8 bytes of the text after the keyword.
    Send(Vec<u8>),
    /// `leave`: end the session.
    Leave,
    /// Anything else.
    Unknown,
}

/// The mathematical form of a [`Command`].
pub enum CommandView {
    Send(Seq<u8>),
    Leave,
    Unknown,
}

impl View for Command {
    type V = CommandView;

    open spec fn view(&self) -> CommandView {
        match self {
            Command::Send(text) => CommandView::Send(text@),
            Command::Leave => CommandView::Leave,
            Command::Unknown => CommandView::Unknown,
        }
    }
}

/// The bytes of `"send "`.
pub open spec fn send_keyword() -> Seq<u8> {
    seq![115u8, 101u8, 110u8, 100u8, 32u8]
}

/// The bytes of `"leave"`.
pub open spec fn leave_keyword() -> Seq<u8> {
    seq![108u8, 101u8, 97u8, 118u8, 101u8]
}

/// The command that an already trimmed line, given as bytes, stands for.
/// Matching is case-sensitive.
pub open spec fn command_of(t: Seq<u8>) -> CommandView {
    if t.len() >= 5 && t.take(5) == send_keyword() {
        CommandView::Send(t.skip(5))
    } else if t == leave_keyword() {
        CommandView::Leave
    } else {
        CommandView::Unknown
    }
}

/// Interprets a line from which surrounding whitespace is already removed.
pub fn classify_command(t: &str) -> (r: Command)
    ensures
        r@ == command_of(t.spec_bytes()),
{
    let b = t.as_bytes();
    if b.len() >= 5 && b[0] == 115u8 && b[1] == 101u8 && b[2] == 110u8 && b[3] == 100u8 && b[4]
        == 32u8 {
        assert(b@.take(5) =~= send_keyword());
        let mut text: Vec<u8> = Vec::new();
        append_from(&mut text, b, 5);
        assert(text@ =~= b@.skip(5));
        Command::Send(text)
    } else if b.len() == 5 && b[0] == 108u8 && b[1] == 101u8 && b[2] == 97u8 && b[3] == 118u8
        && b[4] == 101u8 {
        assert(b@ =~= leave_keyword());
        Command::Leave
    } else {
        assert(b@.len() >= 5 ==> b@.take(5) != send_keyword()) by {
            if b@.len() >= 5 && b@.take(5) == send_keyword() {
                assert(b@[0] == b@.take(5)[0]);
                assert(b@[1] == b@.take(5)[1]);
                assert(b@[2] == b@.take(5)[2]);
                assert(b@[3] == b@.take(5)[3]);
                assert(b@[4] == b@.take(5)[4]);
            }
        }
        assert(b@ != leave_keyword()) by {
            if b@ == leave_keyword() {
                assert(b@[0] == leave_keyword()[0]);
            }
        }
        Command::Unknown
    }
}

/// Interprets a local input line: surrounding whitespace is ignored.
pub fn parse_command(line: &str) -> (r: Command)
    ensures
        r@ == command_of(encode_utf8(trimmed(line@))),
{
    classify_command(trim_line(line))
}

} // verus!
