use vstd::prelude::*;

verus! {

/// What the socket layer reports to a session, and what a session asks it to send.
#[derive(Debug)]
pub enum Message {
    Message(String),
    Close,
    Connected,
    Error(String),
}

impl Clone for Message {
    fn clone(&self) -> (r: Self)
        ensures
            r == *self,
    {
        match self {
            Message::Message(t) => Message::Message(t.clone()),
            Message::Close => Message::Close,
            Message::Connected => Message::Connected,
            Message::Error(e) => Message::Error(e.clone()),
        }
    }
}

/// Failures of a WebSocket session.
#[derive(Debug)]
pub enum WebSocketSessionError {
    NotSetuped,
    InvalidUrl,
    ConnectionFailed,
    AlreadyClosed,
    SendFailed,
}

/// A WebSocket message, with the payloads the session reads; `Raw` is a frame
/// handed over below the message level.
#[derive(Debug)]
pub enum WsFrame {
    Text(String),
    Binary(Vec<u8>),
    Ping,
    Pong,
    Close,
    Raw,
}

/// The frame that carries `msg` to the server: text as a text frame, a close
/// request as a close frame. Socket events are never sent.
pub fn frame_to_send(msg: Message) -> (f: Option<WsFrame>)
    ensures
        msg matches Message::Message(t) ==> f matches Some(WsFrame::Text(u)) && u == t,
        msg is Close ==> f matches Some(WsFrame::Close),
        (msg is Connected || msg is Error) ==> f is None,
{
    match msg {
        Message::Message(t) => Some(WsFrame::Text(t)),
        Message::Close => Some(WsFrame::Close),
        _ => None,
    }
}

/// What a frame read from the server (or the read error, as text) tells the
/// session: text frames are messages, a read error is reported, and binary,
/// control and close frames are passed over.
pub fn message_of_frame(read: Result<WsFrame, String>) -> (m: Option<Message>)
    ensures
        read matches Ok(WsFrame::Text(t)) ==> m matches Some(Message::Message(u)) && u == t,
        read matches Err(e) ==> m matches Some(Message::Error(u)) && u == e,
        (read matches Ok(f) && !(f is Text)) ==> m is None,
{
    match read {
        Ok(WsFrame::Text(t)) => Some(Message::Message(t)),
        Ok(_) => None,
        Err(e) => Some(Message::Error(e)),
    }
}

} // verus!
