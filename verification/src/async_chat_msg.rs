//! The message envelope exchanged between clients and server: text,
//! file and image payloads plus the control-plane login message, with
//! the helpers that read or rebuild them.
use vstd::prelude::*;
use vstd::string::StringExecFns;

use crate::strings::{dec_str, str_eq, u64_to_dec};

verus! {

/// One chat message. `Text` carries the sender and the body; `File`
/// and `Image` carry the sender, a file name and the raw payload
/// bytes; `Login` carries the credentials offered during the
/// handshake and never leaves that handshake.
#[derive(Debug)]
pub enum AsyncChatMsg {
    Text(String, String),
    File(String, String, Vec<u8>),
    Image(String, String, Vec<u8>),
    Login(String, String),
}

/// The mathematical value of a message: the variant tag together with
/// the character and byte sequences of its fields.
pub enum MsgVal {
    Text { from: Seq<char>, body: Seq<char> },
    File { from: Seq<char>, filename: Seq<char>, bytes: Seq<u8> },
    Image { from: Seq<char>, filename: Seq<char>, bytes: Seq<u8> },
    Login { login: Seq<char>, password: Seq<char> },
}

impl View for AsyncChatMsg {
    type V = MsgVal;

    open spec fn view(&self) -> MsgVal {
        match self {
            AsyncChatMsg::Text(from, body) => MsgVal::Text { from: from@, body: body@ },
            AsyncChatMsg::File(from, filename, bytes) => MsgVal::File {
                from: from@,
                filename: filename@,
                bytes: bytes@,
            },
            AsyncChatMsg::Image(from, filename, bytes) => MsgVal::Image {
                from: from@,
                filename: filename@,
                bytes: bytes@,
            },
            AsyncChatMsg::Login(login, password) => MsgVal::Login {
                login: login@,
                password: password@,
            },
        }
    }
}

impl Clone for AsyncChatMsg {
    fn clone(&self) -> (r: Self)
        ensures
            r@ == self@,
    {
        match self {
            AsyncChatMsg::Text(from, body) => AsyncChatMsg::Text(from.clone(), body.clone()),
            AsyncChatMsg::File(from, filename, bytes) => {
                let b = clone_bytes(bytes);
                AsyncChatMsg::File(from.clone(), filename.clone(), b)
            },
            AsyncChatMsg::Image(from, filename, bytes) => {
                let b = clone_bytes(bytes);
                AsyncChatMsg::Image(from.clone(), filename.clone(), b)
            },
            AsyncChatMsg::Login(login, password) => AsyncChatMsg::Login(
                login.clone(),
                password.clone(),
            ),
        }
    }
}

/// A byte-for-byte copy of a payload.
fn clone_bytes(b: &Vec<u8>) -> (r: Vec<u8>)
    ensures
        r@ == b@,
{
    let r = b.clone();
    proof {
        assert(r@ =~= b@);
    }
    r
}

/// The sentinel command a client sends to leave the chat.
pub open spec fn quit_sentinel() -> Seq<char> {
    ".quit"@
}

/// A message asks to quit exactly when it is a `Text` whose body is
/// the quit sentinel.
pub open spec fn is_quit_val(m: MsgVal) -> bool {
    m matches MsgVal::Text { from: _, body } && body == quit_sentinel()
}

impl AsyncChatMsg {
    /// Builds the text variant from a sender and a body.
    pub fn create_text(from: String, msg: String) -> (r: AsyncChatMsg)
        ensures
            r@ == (MsgVal::Text { from: from@, body: msg@ }),
    {
        AsyncChatMsg::Text(from, msg)
    }

    /// Builds the file variant from a sender, a file name and payload bytes.
    pub fn create_file(from: String, filename: String, data: Vec<u8>) -> (r: AsyncChatMsg)
        ensures
            r@ == (MsgVal::File { from: from@, filename: filename@, bytes: data@ }),
    {
        AsyncChatMsg::File(from, filename, data)
    }

    /// Builds the image variant from a sender, a file name and payload bytes.
    pub fn create_image(from: String, filename: String, data: Vec<u8>) -> (r: AsyncChatMsg)
        ensures
            r@ == (MsgVal::Image { from: from@, filename: filename@, bytes: data@ }),
    {
        AsyncChatMsg::Image(from, filename, data)
    }

    /// Builds the login variant offering a name and a password.
    pub fn create_login(login: String, password: String) -> (r: AsyncChatMsg)
        ensures
            r@ == (MsgVal::Login { login: login@, password: password@ }),
    {
        AsyncChatMsg::Login(login, password)
    }

    /// The textual heart of the message: the body of a text message,
    /// the file name of a file or image, the login name of a login.
    pub fn get_text(&self) -> (r: &str)
        ensures
            r@ == self.spec_text(),
    {
        match self {
            AsyncChatMsg::Text(_, msg) => msg.as_str(),
            AsyncChatMsg::File(_, filename, _) => filename.as_str(),
            AsyncChatMsg::Image(_, filename, _) => filename.as_str(),
            AsyncChatMsg::Login(login, _) => login.as_str(),
        }
    }

    /// What `get_text` returns.
    pub open spec fn spec_text(&self) -> Seq<char> {
        match self@ {
            MsgVal::Text { from: _, body } => body,
            MsgVal::File { from: _, filename, bytes: _ } => filename,
            MsgVal::Image { from: _, filename, bytes: _ } => filename,
            MsgVal::Login { login, password: _ } => login,
        }
    }

    /// The sender named in the message (the offered login name for a
    /// login message).
    pub fn sender(&self) -> (r: &str)
        ensures
            r@ == self.spec_sender(),
    {
        match self {
            AsyncChatMsg::Text(from, _) => from.as_str(),
            AsyncChatMsg::File(from, _, _) => from.as_str(),
            AsyncChatMsg::Image(from, _, _) => from.as_str(),
            AsyncChatMsg::Login(login, _) => login.as_str(),
        }
    }

    /// What `sender` returns.
    pub open spec fn spec_sender(&self) -> Seq<char> {
        match self@ {
            MsgVal::Text { from, body: _ } => from,
            MsgVal::File { from, filename: _, bytes: _ } => from,
            MsgVal::Image { from, filename: _, bytes: _ } => from,
            MsgVal::Login { login, password: _ } => login,
        }
    }

    /// Whether this message is the graceful quit command.
    pub fn is_quit(&self) -> (r: bool)
        ensures
            r == is_quit_val(self@),
    {
        match self {
            AsyncChatMsg::Text(_, body) => str_eq(body.as_str(), ".quit"),
            _ => false,
        }
    }

    /// The persisted form of the message: payload bytes are dropped,
    /// and a login is never persisted at all.
    pub fn to_db_record(&self) -> (r: Option<AsyncChatMsgDB>)
        ensures
            match r {
                Some(d) => spec_db_record(self@) == Some(d@),
                None => spec_db_record(self@) is None,
            },
    {
        match self {
            AsyncChatMsg::Text(from, msg) => Some(
                AsyncChatMsgDB::Text(from.clone(), msg.clone()),
            ),
            AsyncChatMsg::File(from, filename, _) => Some(
                AsyncChatMsgDB::File(from.clone(), filename.clone()),
            ),
            AsyncChatMsg::Image(from, filename, _) => Some(
                AsyncChatMsgDB::Image(from.clone(), filename.clone()),
            ),
            AsyncChatMsg::Login(_, _) => None,
        }
    }

    /// The folder a received payload is saved under: files and images
    /// go to folders of their own, other messages carry nothing to save.
    pub fn store_folder(&self) -> (r: Option<&'static str>)
        ensures
            self@ matches MsgVal::File { .. } ==> r matches Some(f) && f@ == "files"@,
            self@ matches MsgVal::Image { .. } ==> r matches Some(f) && f@ == "images"@,
            self@ matches MsgVal::Text { .. } ==> r is None,
            self@ matches MsgVal::Login { .. } ==> r is None,
    {
        match self {
            AsyncChatMsg::File(_, _, _) => Some("files"),
            AsyncChatMsg::Image(_, _, _) => Some("images"),
            _ => None,
        }
    }

    /// One line describing the message for a console, with payload
    /// sizes for files and images and the password of a login hidden.
    pub fn display_string(&self) -> (r: String)
        ensures
            r@ == spec_display(self@),
    {
        match self {
            AsyncChatMsg::Text(from, text) => from.clone().concat(": ").concat(text.as_str()),
            AsyncChatMsg::File(from, name, data) => {
                let size = u64_to_dec(data.len() as u64);
                from.clone().concat(": incomming file ").concat(name.as_str()).concat(
                    " (",
                ).concat(size.as_str()).concat("B)")
            },
            AsyncChatMsg::Image(from, name, data) => {
                let size = u64_to_dec(data.len() as u64);
                from.clone().concat(": incomming image ").concat(name.as_str()).concat(
                    " (",
                ).concat(size.as_str()).concat("B)")
            },
            AsyncChatMsg::Login(login, _) => login.clone().concat(hidden_password_notice()),
        }
    }
}

/// What `display_string` returns, per variant.
pub open spec fn spec_display(m: MsgVal) -> Seq<char> {
    match m {
        MsgVal::Text { from, body } => from + ": "@ + body,
        MsgVal::File { from, filename, bytes } => from + ": incomming file "@ + filename + " ("@
            + dec_str(bytes.len()) + "B)"@,
        MsgVal::Image { from, filename, bytes } => from + ": incomming image "@ + filename + " ("@
            + dec_str(bytes.len()) + "B)"@,
        MsgVal::Login { login, password: _ } => login
            + ": ********* (you didn't really think that I would print password here, did you?"@,
    }
}

/// The fixed tail a displayed login message ends with.
fn hidden_password_notice() -> (r: &'static str)
    ensures
        r@ == ": ********* (you didn't really think that I would print password here, did you?"@,
{
    ": ********* (you didn't really think that I would print password here, did you?"
}

/// The lightweight form of a message kept in the history store: the
/// sender plus the body or file name, never the payload bytes.
#[derive(Debug)]
pub enum AsyncChatMsgDB {
    Text(String, String),
    File(String, String),
    Image(String, String),
}

/// The mathematical value of a persisted record.
pub enum DbVal {
    Text { from: Seq<char>, body: Seq<char> },
    File { from: Seq<char>, filename: Seq<char> },
    Image { from: Seq<char>, filename: Seq<char> },
}

impl View for AsyncChatMsgDB {
    type V = DbVal;

    open spec fn view(&self) -> DbVal {
        match self {
            AsyncChatMsgDB::Text(from, body) => DbVal::Text { from: from@, body: body@ },
            AsyncChatMsgDB::File(from, filename) => DbVal::File {
                from: from@,
                filename: filename@,
            },
            AsyncChatMsgDB::Image(from, filename) => DbVal::Image {
                from: from@,
                filename: filename@,
            },
        }
    }
}

/// The record persisted for a message: bytes are dropped and a login
/// yields no record.
pub open spec fn spec_db_record(m: MsgVal) -> Option<DbVal> {
    match m {
        MsgVal::Text { from, body } => Some(DbVal::Text { from, body }),
        MsgVal::File { from, filename, bytes: _ } => Some(DbVal::File { from, filename }),
        MsgVal::Image { from, filename, bytes: _ } => Some(DbVal::Image { from, filename }),
        MsgVal::Login { .. } => None,
    }
}

impl AsyncChatMsgDB {
    /// The sender recorded in the persisted form.
    pub fn from_name(&self) -> (r: &str)
        ensures
            r@ == self.spec_from_name(),
    {
        match self {
            AsyncChatMsgDB::Text(from, _) => from.as_str(),
            AsyncChatMsgDB::File(from, _) => from.as_str(),
            AsyncChatMsgDB::Image(from, _) => from.as_str(),
        }
    }

    /// What `from_name` returns.
    pub open spec fn spec_from_name(&self) -> Seq<char> {
        match self {
            AsyncChatMsgDB::Text(from, _) => from@,
            AsyncChatMsgDB::File(from, _) => from@,
            AsyncChatMsgDB::Image(from, _) => from@,
        }
    }
}

/// The key a persisted record is filed under: the timestamp, a bar,
/// and the sender.
pub fn db_key(timestamp: &str, from: &str) -> (r: String)
    ensures
        r@ == timestamp@ + "|"@ + from@,
{
    String::from_str(timestamp).concat("|").concat(from)
}

} // verus!
