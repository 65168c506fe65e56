//! The client-side decisions: reading a login line, telling a failed
//! login reply from a welcome, and turning one input line into the
//! command it means. The loops around them — console input, the
//! socket — live with the transport.
use vstd::prelude::*;
use vstd::string::{StrSliceExecFns, StringExecFns};

use crate::async_chat_msg::{AsyncChatMsg, MsgVal};
use crate::strings::{spec_starts_with, spec_trim, str_eq, str_starts_with, str_trim};

verus! {

/// The position of the first space in `s` at or after `i`, if any.
pub open spec fn find_space(s: Seq<char>, i: int) -> Option<int>
    decreases s.len() - i,
{
    if i < 0 || i >= s.len() {
        None
    } else if s[i] == ' ' {
        Some(i)
    } else {
        find_space(s, i + 1)
    }
}

/// Splits a line at its first space: the text before it and the text
/// after it, or nothing for a line without a space.
pub fn split_first_space(line: &str) -> (r: Option<(String, String)>)
    ensures
        match r {
            Some(p) => find_space(line@, 0) matches Some(i) && p.0@ == line@.subrange(0, i)
                && p.1@ == line@.subrange(i + 1, line@.len() as int),
            None => find_space(line@, 0) is None,
        },
{
    let n = line.unicode_len();
    let mut i: usize = 0;
    while i < n
        invariant
            i <= n,
            n == line@.len(),
            find_space(line@, 0) == find_space(line@, i as int),
        decreases n - i,
    {
        if line.get_char(i) == ' ' {
            let head = String::from_str(line.substring_char(0, i));
            let tail = String::from_str(line.substring_char(i + 1, n));
            return Some((head, tail));
        }
        i += 1;
    }
    None
}

/// What a login input line yields: the line splits at its first
/// space into name and password, the name is trimmed, and both must
/// be nonempty.
pub open spec fn spec_login_line(line: Seq<char>) -> Option<(Seq<char>, Seq<char>)> {
    match find_space(line, 0) {
        Some(i) => {
            let login = spec_trim(line.subrange(0, i));
            let password = line.subrange(i + 1, line.len() as int);
            if login.len() > 0 && password.len() > 0 {
                Some((login, password))
            } else {
                None
            }
        },
        None => None,
    }
}

/// Reads the name and password out of one login input line,
/// following `spec_login_line` exactly.
pub fn parse_login_line(line: &str) -> (r: Option<(String, String)>)
    ensures
        match r {
            Some(p) => spec_login_line(line@) == Some((p.0@, p.1@)),
            None => spec_login_line(line@) is None,
        },
{
    match split_first_space(line) {
        Some((head, tail)) => {
            let login = str_trim(head.as_str());
            if login.unicode_len() > 0 && tail.unicode_len() > 0 {
                Some((login, tail))
            } else {
                None
            }
        },
        None => None,
    }
}

/// Whether a server reply reports a failed login attempt: a text
/// message whose body opens with the error marker.
pub fn is_error_reply(msg: &AsyncChatMsg) -> (r: bool)
    ensures
        r == (msg@ matches MsgVal::Text { from: _, body } && spec_starts_with(body, "ERROR"@)),
{
    match msg {
        AsyncChatMsg::Text(_, body) => str_starts_with(body.as_str(), "ERROR"),
        _ => false,
    }
}

/// What the user asked for with one input line.
pub enum ClientCommand {
    /// Send the whole line as a text message.
    SendText(String),
    /// Send the file at this path.
    SendFile(String),
    /// Send the image at this path.
    SendImage(String),
}

/// The mathematical value of a client command.
pub enum CommandVal {
    SendText(Seq<char>),
    SendFile(Seq<char>),
    SendImage(Seq<char>),
}

impl View for ClientCommand {
    type V = CommandVal;

    open spec fn view(&self) -> CommandVal {
        match self {
            ClientCommand::SendText(t) => CommandVal::SendText(t@),
            ClientCommand::SendFile(p) => CommandVal::SendFile(p@),
            ClientCommand::SendImage(p) => CommandVal::SendImage(p@),
        }
    }
}

/// The command one input line means: a line opening with a command
/// word names a file or image to send by the rest of the line; any
/// other line is sent as text, as it stands.
pub open spec fn spec_command(line: Seq<char>) -> CommandVal {
    match find_space(line, 0) {
        Some(i) => {
            let head = line.subrange(0, i);
            let tail = line.subrange(i + 1, line.len() as int);
            if head == ".image"@ {
                CommandVal::SendImage(tail)
            } else if head == ".file"@ {
                CommandVal::SendFile(tail)
            } else {
                CommandVal::SendText(line)
            }
        },
        None => CommandVal::SendText(line),
    }
}

/// Turns one input line into its command, following `spec_command`
/// exactly.
pub fn parse_command(line: &str) -> (r: ClientCommand)
    ensures
        r@ == spec_command(line@),
{
    match split_first_space(line) {
        Some((head, tail)) => {
            if str_eq(head.as_str(), ".image") {
                ClientCommand::SendImage(tail)
            } else if str_eq(head.as_str(), ".file") {
                ClientCommand::SendFile(tail)
            } else {
                ClientCommand::SendText(String::from_str(line))
            }
        },
        None => ClientCommand::SendText(String::from_str(line)),
    }
}

} // verus!
