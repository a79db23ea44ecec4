//! Server-side synchronisation engine of a tile-based multiplayer world:
//! fixed-point coordinates, the chunked world store, the entity registry,
//! the wire format and the per-connection session state machine.

use vstd::prelude::*;

pub mod admin;
pub mod block;
pub mod chat;
pub mod codec;
pub mod coords;
pub mod entity;
pub mod linecap;
pub mod map;
pub mod message;
pub mod registry;
pub mod session;
pub mod window;
pub mod wire;

verus! {

/// The opcodes of the connect frame.
#[derive(Clone, Copy, Debug, PartialEq, Eq, Structural)]
pub enum OpCode {
    /// Asks for, or gives, a user name.
    Connect,
}

impl OpCode {
    /// The character that stands for the opcode at the head of a frame.
    pub open spec fn spec_mark(self) -> char {
        '\u{1}'
    }

    /// The character that stands for the opcode at the head of a frame.
    pub fn mark(self) -> (r: char)
        ensures
            r == self.spec_mark(),
    {
        '\u{1}'
    }
}

/// The message of the connect frame: an opcode character, then its text.
#[derive(Debug, PartialEq)]
pub enum Message {
    /// Carries a user name.
    Connect(String),
}

/// What a connect message holds, as plain values.
pub enum ConnectView {
    Connect(Seq<char>),
}

impl View for Message {
    type V = ConnectView;

    open spec fn view(&self) -> ConnectView {
        match *self {
            Message::Connect(username) => ConnectView::Connect(username@),
        }
    }
}

/// The frame of a connect message: the opcode's character, then the name.
pub open spec fn connect_frame(message: ConnectView) -> Seq<char> {
    match message {
        ConnectView::Connect(username) => seq![OpCode::Connect.spec_mark()] + username,
    }
}

/// The connect message that the frame `s` writes, if it begins with a known
/// opcode.
pub open spec fn connect_message(s: Seq<char>) -> Option<ConnectView> {
    if s.len() >= 1 && s[0] == OpCode::Connect.spec_mark() {
        Some(ConnectView::Connect(s.subrange(1, s.len() as int)))
    } else {
        None
    }
}

/// A connect message reads back from its frame, and a frame that reads as
/// a message is the frame of that message.
pub proof fn lemma_connect_round_trip(message: ConnectView, s: Seq<char>)
    ensures
        connect_message(connect_frame(message)) == Some(message),
        connect_message(s).is_some() ==> connect_frame(connect_message(s).unwrap()) == s,
{
    let frame = connect_frame(message);
    assert(frame.subrange(1, frame.len() as int) =~= message->0);
    if connect_message(s).is_some() {
        assert(connect_frame(connect_message(s).unwrap()) =~= s);
    }
}

impl Message {
    /// Reads a connect frame. A frame that is empty or begins with another
    /// character than a known opcode is refused as `"invalid opcode"`.
    pub fn decode(data: String) -> (r: Result<Self, &'static str>)
        ensures
            match r {
                Ok(message) => connect_message(data@) == Some(message@),
                Err(e) => connect_message(data@).is_none() && e@ == "invalid opcode"@,
            },
    {
        let text = data.as_str();
        let len = text.unicode_len();
        if len == 0 || text.get_char(0) != OpCode::Connect.mark() {
            return Err("invalid opcode");
        }
        Ok(Message::Connect(String::from_str(text.substring_char(1, len))))
    }

    /// Writes the message as a connect frame.
    pub fn encode(&self) -> (r: String)
        ensures
            r@ == connect_frame(self@),
    {
        match self {
            Message::Connect(username) => {
                proof {
                    reveal_strlit("\u{1}");
                }
                let mut data = String::from_str("\u{1}");
                data.append(username.as_str());
                assert(data@ =~= connect_frame(self@));
                data
            },
        }
    }
}

} // verus!
