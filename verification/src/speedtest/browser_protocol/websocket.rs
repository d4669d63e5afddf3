//! The conversation over a web socket.

use vstd::prelude::*;
use vstd::utf8::{decode_utf8, valid_utf8};

use crate::text::{
    begins_with, decimal, starts_with, to_chars, to_decimal, trim, trimmed, utf8_text,
};

verus! {

/// An exchange: what is sent, and what the answer starts with.
#[derive(Clone, Copy, Debug, PartialEq, Eq, Structural)]
pub enum Exchange {
    Hello,
    Address,
    Capabilities,
    Ping,
}

impl Exchange {
    /// What the answer has to start with.
    pub open spec fn prefix(self) -> Seq<char> {
        match self {
            Exchange::Hello => "HELLO"@,
            Exchange::Address => "YOURIP"@,
            Exchange::Capabilities => "CAPABILITIES"@,
            Exchange::Ping => "PONG"@,
        }
    }

    pub fn expected(self) -> (r: &'static str)
        ensures
            r@ == self.prefix(),
    {
        match self {
            Exchange::Hello => "HELLO",
            Exchange::Address => "YOURIP",
            Exchange::Capabilities => "CAPABILITIES",
            Exchange::Ping => "PONG",
        }
    }

    /// The name of the answer in errors.
    pub open spec fn awaited(self) -> Seq<char> {
        match self {
            Exchange::Hello => "HELLO handshake"@,
            Exchange::Address => "GETIP response"@,
            Exchange::Capabilities => "CAPABILITIES response"@,
            Exchange::Ping => "PING response"@,
        }
    }

    pub fn action(self) -> (r: &'static str)
        ensures
            r@ == self.awaited(),
    {
        match self {
            Exchange::Hello => "HELLO handshake",
            Exchange::Address => "GETIP response",
            Exchange::Capabilities => "CAPABILITIES response",
            Exchange::Ping => "PING response",
        }
    }

    /// The exchange of the greeting that follows this one.
    pub open spec fn successor(self) -> Option<Exchange> {
        match self {
            Exchange::Hello => Some(Exchange::Address),
            Exchange::Address => Some(Exchange::Capabilities),
            Exchange::Capabilities => None,
            Exchange::Ping => None,
        }
    }

    pub fn next(self) -> (r: Option<Exchange>)
        ensures
            r == self.successor(),
    {
        match self {
            Exchange::Hello => Some(Exchange::Address),
            Exchange::Address => Some(Exchange::Capabilities),
            Exchange::Capabilities => None,
            Exchange::Ping => None,
        }
    }

    /// What is sent. Only a ping carries a token.
    pub open spec fn sent(self, token: u64) -> Seq<char> {
        match self {
            Exchange::Hello => "HI\t2\t"@,
            Exchange::Address => "GETIP"@,
            Exchange::Capabilities => "CAPABILITIES"@,
            Exchange::Ping => "PING "@ + decimal(token as int),
        }
    }

    pub fn request(self, token: u64) -> (r: String)
        ensures
            r@ == self.sent(token),
    {
        match self {
            Exchange::Hello => "HI\t2\t".to_owned(),
            Exchange::Address => "GETIP".to_owned(),
            Exchange::Capabilities => "CAPABILITIES".to_owned(),
            Exchange::Ping => {
                let mut out = "PING ".to_owned();
                out.append(to_decimal(token).as_str());
                out
            },
        }
    }
}

/// A frame that came.
#[derive(Debug)]
pub enum FrameEvent {
    Text(String),
    Binary,
    Ping,
    Pong,
    Close,
    Raw,
}

/// What a frame means for an exchange that waits for its answer.
#[derive(Debug)]
pub enum AnswerStep {
    /// The answer has come.
    Answered,
    /// Wait for the next frame.
    Wait,
    /// Send a pong, then wait for the next frame.
    ReplyPong,
    /// Another message has come.
    Unexpected(String),
    Closed,
}

/// What a frame means for `exchange`.
pub fn on_answer_frame(exchange: Exchange, frame: FrameEvent) -> (step: AnswerStep)
    ensures
        match frame {
            FrameEvent::Text(text) => if begins_with(trimmed(text@), exchange.prefix()) {
                step is Answered
            } else {
                step matches AnswerStep::Unexpected(shown) && shown@ == trimmed(text@)
            },
            FrameEvent::Binary | FrameEvent::Pong | FrameEvent::Raw => step is Wait,
            FrameEvent::Ping => step is ReplyPong,
            FrameEvent::Close => step is Closed,
        },
{
    match frame {
        FrameEvent::Text(text) => {
            let body = trim(text.as_str());
            if starts_with(&to_chars(body.as_str()), exchange.expected()) {
                AnswerStep::Answered
            } else {
                AnswerStep::Unexpected(body)
            }
        },
        FrameEvent::Binary | FrameEvent::Pong | FrameEvent::Raw => AnswerStep::Wait,
        FrameEvent::Ping => AnswerStep::ReplyPong,
        FrameEvent::Close => AnswerStep::Closed,
    }
}

/// The error for a message that is not the answer.
pub open spec fn unexpected_text(shown: Seq<char>, exchange: Exchange) -> Seq<char> {
    "unexpected websocket message '"@ + shown + "' while waiting for "@ + exchange.awaited()
}

pub fn unexpected_message(shown: &str, exchange: Exchange) -> (r: String)
    ensures
        r@ == unexpected_text(shown@, exchange),
{
    let mut out = "unexpected websocket message '".to_owned();
    out.append(shown);
    out.append("' while waiting for ");
    out.append(exchange.action());
    out
}

/// The error for a socket that closed.
pub fn closed_message(exchange: Exchange) -> (r: String)
    ensures
        r@ == "websocket closed while waiting for "@ + exchange.awaited(),
{
    let mut out = "websocket closed while waiting for ".to_owned();
    out.append(exchange.action());
    out
}

/// What a frame means for a reader that takes whatever text comes.
#[derive(Debug)]
pub enum TextStep {
    Text(String),
    Nothing,
    /// Send a pong; no text has come.
    ReplyPong,
}

pub fn on_text_frame(frame: FrameEvent) -> (step: TextStep)
    ensures
        match frame {
            FrameEvent::Text(text) => step matches TextStep::Text(body) && body@ == trimmed(text@),
            FrameEvent::Ping => step is ReplyPong,
            _ => step is Nothing,
        },
{
    match frame {
        FrameEvent::Text(text) => TextStep::Text(trim(text.as_str())),
        FrameEvent::Ping => TextStep::ReplyPong,
        _ => TextStep::Nothing,
    }
}

/// A frame of a stream of reports, or what came in its place.
#[derive(Debug)]
pub enum ReportFrame {
    TimedOut,
    /// The stream is over.
    Ended,
    Text(String),
    Binary(Vec<u8>),
    Ping,
    /// A frame that says nothing.
    Other,
}

/// What a frame means for a stream of reports.
#[derive(Debug)]
pub enum WsNextFrame {
    Timeout,
    Closed,
    Text(String),
    NonText,
    /// Send a pong; no text has come.
    ReplyPong,
}

/// What a frame means for a stream of reports. Bytes that are a text count as one.
pub fn on_report_frame(frame: ReportFrame) -> (r: WsNextFrame)
    ensures
        match frame {
            ReportFrame::TimedOut => r is Timeout,
            ReportFrame::Ended => r is Closed,
            ReportFrame::Text(text) => r matches WsNextFrame::Text(body) && body@ == trimmed(
                text@,
            ),
            ReportFrame::Binary(bytes) => if valid_utf8(bytes@) {
                r matches WsNextFrame::Text(body) && body@ == trimmed(decode_utf8(bytes@))
            } else {
                r is NonText
            },
            ReportFrame::Ping => r is ReplyPong,
            ReportFrame::Other => r is NonText,
        },
{
    match frame {
        ReportFrame::TimedOut => WsNextFrame::Timeout,
        ReportFrame::Ended => WsNextFrame::Closed,
        ReportFrame::Text(text) => WsNextFrame::Text(trim(text.as_str())),
        ReportFrame::Binary(bytes) => match utf8_text(bytes) {
            Some(text) => {
                proof {
                    vstd::utf8::encode_utf8_valid_utf8(text@);
                    vstd::utf8::encode_utf8_decode_utf8(text@);
                }
                WsNextFrame::Text(trim(text.as_str()))
            },
            None => WsNextFrame::NonText,
        },
        ReportFrame::Ping => WsNextFrame::ReplyPong,
        ReportFrame::Other => WsNextFrame::NonText,
    }
}

} // verus!
