//! The decisions of a WebSocket session that streams a topic to a client.

use vstd::prelude::*;

verus! {

/// Seconds between the pings that keep a session alive.
pub const HEARTBEAT_INTERVAL_SECS: u64 = 10;

/// The largest message, in bytes, that a client may send in continuation frames.
pub const MAX_CONTINUATION_SIZE: usize = 65536;

/// How many records a topic's channel buffers for slow receivers.
pub const CHANNEL_CAPACITY: usize = 1024;

/// What happened in a session.
#[derive(Clone, Debug)]
pub enum SessionEvent {
    /// A record came from the topic, with its JSON text where it could be
    /// written as JSON.
    Record(Option<String>),
    /// The session fell behind and this many records were skipped.
    Lagged(u64),
    /// The topic's channel closed.
    ChannelClosed,
    /// The client sent a ping with these bytes.
    Ping(Vec<u8>),
    /// The client sent a pong.
    Pong,
    /// The client asked to close.
    Close,
    /// The client sent something else.
    Other,
    /// The heartbeat interval elapsed.
    Heartbeat,
}

/// What the session does next.
#[derive(Clone, Debug)]
pub enum SessionAction {
    /// Send this text; if sending fails, end the session.
    SendText(String),
    /// Answer a ping with these bytes; if sending fails, end the session.
    SendPong(Vec<u8>),
    /// Send a ping; if sending fails, end the session.
    SendPing,
    /// Note that records were skipped, and go on.
    WarnLagged(u64),
    /// Close the session towards the client, then end it.
    CloseAndEnd,
    /// End the session.
    End,
    /// Do nothing, and go on.
    Continue,
}

/// What a session does on an event: records go to the client as text, pings
/// are answered, the heartbeat pings the client, a lag is noted, and the
/// session ends when the channel closes or the client closes.
pub fn session_step(event: SessionEvent) -> (action: SessionAction)
    ensures
        match event {
            SessionEvent::Record(Some(text)) => action == SessionAction::SendText(text),
            SessionEvent::Record(None) => action == SessionAction::Continue,
            SessionEvent::Lagged(n) => action == SessionAction::WarnLagged(n),
            SessionEvent::ChannelClosed => action == SessionAction::End,
            SessionEvent::Ping(bytes) => action == SessionAction::SendPong(bytes),
            SessionEvent::Pong => action == SessionAction::Continue,
            SessionEvent::Close => action == SessionAction::CloseAndEnd,
            SessionEvent::Other => action == SessionAction::Continue,
            SessionEvent::Heartbeat => action == SessionAction::SendPing,
        },
{
    match event {
        SessionEvent::Record(Some(text)) => SessionAction::SendText(text),
        SessionEvent::Record(None) => SessionAction::Continue,
        SessionEvent::Lagged(n) => SessionAction::WarnLagged(n),
        SessionEvent::ChannelClosed => SessionAction::End,
        SessionEvent::Ping(bytes) => SessionAction::SendPong(bytes),
        SessionEvent::Pong => SessionAction::Continue,
        SessionEvent::Close => SessionAction::CloseAndEnd,
        SessionEvent::Other => SessionAction::Continue,
        SessionEvent::Heartbeat => SessionAction::SendPing,
    }
}

/// Whether the session goes on after an action was carried out, given
/// whether sending (where the action sends) succeeded.
pub fn continues_after(action: &SessionAction, sent: bool) -> (go_on: bool)
    ensures
        go_on == match *action {
            SessionAction::SendText(_) | SessionAction::SendPong(_) | SessionAction::SendPing => sent,
            SessionAction::CloseAndEnd | SessionAction::End => false,
            SessionAction::WarnLagged(_) | SessionAction::Continue => true,
        },
{
    match action {
        SessionAction::SendText(_) | SessionAction::SendPong(_) | SessionAction::SendPing => sent,
        SessionAction::CloseAndEnd | SessionAction::End => false,
        SessionAction::WarnLagged(_) | SessionAction::Continue => true,
    }
}

} // verus!
