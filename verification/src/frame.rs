//! Websocket messages and how they are framed.

use crate::json::{json_text, readable, reads_as, Json, Tree};
use crate::text::same;
use vstd::prelude::*;
use vstd::utf8::encode_utf8;

verus! {

/// Whether notifications are sent as text or as binary frames.
#[derive(Clone, Copy, Debug, PartialEq, Eq, Structural)]
pub enum FrameType {
    /// As text.
    Text,
    /// As binary data.
    Binary,
}

/// The frame type that a client asks for: `text` for text, anything else for binary data.
pub open spec fn frame_type_of(s: Seq<char>) -> FrameType {
    if s == "text"@ {
        FrameType::Text
    } else {
        FrameType::Binary
    }
}

impl FrameType {
    /// Reads the frame type that a client asks for.
    pub fn parse(s: &str) -> (r: FrameType)
        ensures
            r == frame_type_of(s@),
    {
        if same(s, "text") {
            FrameType::Text
        } else {
            FrameType::Binary
        }
    }
}

/// A message that goes over a websocket.
#[derive(Debug, PartialEq, Eq)]
pub enum Message {
    /// Text.
    Text(String),
    /// Binary data.
    Binary(Vec<u8>),
    /// A ping, which is answered by the transport.
    Ping,
    /// A pong.
    Pong,
    /// The connection is to be closed.
    Close,
}

/// What a message says.
#[verifier::ext_equal]
pub enum FrameView {
    /// Text.
    Text(Seq<char>),
    /// Binary data.
    Binary(Seq<u8>),
    /// A ping.
    Ping,
    /// A pong.
    Pong,
    /// The connection is to be closed.
    Close,
}

impl View for Message {
    type V = FrameView;

    open spec fn view(&self) -> FrameView {
        match *self {
            Message::Text(s) => FrameView::Text(s@),
            Message::Binary(d) => FrameView::Binary(d@),
            Message::Ping => FrameView::Ping,
            Message::Pong => FrameView::Pong,
            Message::Close => FrameView::Close,
        }
    }
}

/// The bytes that a message carries.
pub open spec fn payload(m: FrameView) -> Seq<u8> {
    match m {
        FrameView::Text(s) => encode_utf8(s),
        FrameView::Binary(d) => d,
        _ => Seq::empty(),
    }
}

/// The message with the JSON text of `t`.
pub open spec fn framed(t: Tree, text: bool) -> FrameView {
    if text {
        FrameView::Text(json_text(t))
    } else {
        FrameView::Binary(encode_utf8(json_text(t)))
    }
}

impl Message {
    /// The message with the JSON text of `v`.
    pub fn frame(v: &Json, text: bool) -> (r: Message)
        ensures
            r@ == framed(v@, text),
            readable(v@, 127) ==> reads_as(payload(r@), v@),
    {
        if text {
            Message::Text(v.to_text())
        } else {
            Message::Binary(v.to_bytes())
        }
    }

    /// The bytes that the message carries.
    pub fn as_bytes(&self) -> (r: &[u8])
        ensures
            r@ == payload(self@),
    {
        proof {
            reveal_strlit("");
            assert(""@ =~= Seq::<char>::empty());
            assert(encode_utf8(""@) =~= Seq::<u8>::empty());
        }
        match self {
            Message::Text(s) => s.as_str().as_bytes(),
            Message::Binary(d) => d.as_slice(),
            _ => "".as_bytes(),
        }
    }

    /// Whether this is a text message.
    pub fn is_text(&self) -> (r: bool)
        ensures
            r == (self@ is Text),
    {
        match self {
            Message::Text(_) => true,
            _ => false,
        }
    }
}

/// A message carries the same bytes whether it is sent as text or as binary data.
pub proof fn lemma_framing_keeps_payload(t: Tree)
    ensures
        payload(framed(t, true)) == payload(framed(t, false)),
{
}

} // verus!
