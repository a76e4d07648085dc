//! The worker's side of its connection to the server: a session that
//! connects, registers, runs until the connection ends, and starts over after
//! a fixed delay, forever.
use crate::judge::{ApiToJudgeMessage, JudgeInfo, JudgeTask, JudgeToApiMessage, Language};
use vstd::prelude::*;
use vstd::string::*;

verus! {

/// Seconds between the end of a session and the next attempt to connect.
pub const RECONNECT_DELAY_SECS: u64 = 5;

/// Seconds between two heartbeats of an active session.
pub const HEARTBEAT_INTERVAL_SECS: u64 = 8;

#[derive(Clone, Copy, Debug, PartialEq, Eq, Structural)]
pub enum SessionState {
    Disconnected,
    Connecting,
    Registering,
    Active,
}

/// What happened to the session.
#[derive(Clone, Copy, Debug, PartialEq, Eq, Structural)]
pub enum SessionEvent {
    /// The worker starts.
    Start,
    /// The delay after a session's end has passed.
    RetryElapsed,
    /// The connection to the server is open.
    Connected,
    /// The connection could not be opened.
    ConnectFailed,
    /// The registration message went out.
    RegistrationSent,
    /// The registration message could not be made or sent.
    RegistrationFailed,
    /// The server closed the connection.
    Closed,
    /// The connection failed, or one of the session's loops ended.
    StreamError,
    /// The worker lost track of the session: whatever the state, it ends.
    Reset,
}

/// What the worker does next.
#[derive(Clone, Copy, Debug, PartialEq, Eq, Structural)]
pub enum SessionAction {
    /// Open a connection to the server.
    Connect,
    /// Sign and send the registration message.
    SendRegistration,
    /// Start the heartbeat, inbound and outbound loops.
    StartLoops,
    /// Stop every loop of the session, then wait this many seconds.
    TearDownAndWait(u64),
    /// Nothing: the event does not apply in this state.
    Ignore,
}

/// The session's next state and action on an event.
pub open spec fn session_step(s: SessionState, e: SessionEvent) -> (SessionState, SessionAction) {
    match (s, e) {
        (_, SessionEvent::Reset) => (
            SessionState::Disconnected,
            SessionAction::TearDownAndWait(RECONNECT_DELAY_SECS),
        ),
        (SessionState::Disconnected, SessionEvent::Start) => (
            SessionState::Connecting,
            SessionAction::Connect,
        ),
        (SessionState::Disconnected, SessionEvent::RetryElapsed) => (
            SessionState::Connecting,
            SessionAction::Connect,
        ),
        (SessionState::Connecting, SessionEvent::Connected) => (
            SessionState::Registering,
            SessionAction::SendRegistration,
        ),
        (SessionState::Connecting, SessionEvent::ConnectFailed) => (
            SessionState::Disconnected,
            SessionAction::TearDownAndWait(RECONNECT_DELAY_SECS),
        ),
        (SessionState::Registering, SessionEvent::RegistrationSent) => (
            SessionState::Active,
            SessionAction::StartLoops,
        ),
        (SessionState::Registering, SessionEvent::RegistrationFailed) => (
            SessionState::Disconnected,
            SessionAction::TearDownAndWait(RECONNECT_DELAY_SECS),
        ),
        (SessionState::Registering, SessionEvent::Closed) => (
            SessionState::Disconnected,
            SessionAction::TearDownAndWait(RECONNECT_DELAY_SECS),
        ),
        (SessionState::Registering, SessionEvent::StreamError) => (
            SessionState::Disconnected,
            SessionAction::TearDownAndWait(RECONNECT_DELAY_SECS),
        ),
        (SessionState::Active, SessionEvent::Closed) => (
            SessionState::Disconnected,
            SessionAction::TearDownAndWait(RECONNECT_DELAY_SECS),
        ),
        (SessionState::Active, SessionEvent::StreamError) => (
            SessionState::Disconnected,
            SessionAction::TearDownAndWait(RECONNECT_DELAY_SECS),
        ),
        _ => (s, SessionAction::Ignore),
    }
}

/// The session's next state and action on an event.
pub fn step(s: SessionState, e: SessionEvent) -> (r: (SessionState, SessionAction))
    ensures
        r == session_step(s, e),
{
    match (s, e) {
        (_, SessionEvent::Reset) => (
            SessionState::Disconnected,
            SessionAction::TearDownAndWait(RECONNECT_DELAY_SECS),
        ),
        (SessionState::Disconnected, SessionEvent::Start) => (
            SessionState::Connecting,
            SessionAction::Connect,
        ),
        (SessionState::Disconnected, SessionEvent::RetryElapsed) => (
            SessionState::Connecting,
            SessionAction::Connect,
        ),
        (SessionState::Connecting, SessionEvent::Connected) => (
            SessionState::Registering,
            SessionAction::SendRegistration,
        ),
        (SessionState::Registering, SessionEvent::RegistrationSent) => (
            SessionState::Active,
            SessionAction::StartLoops,
        ),
        (SessionState::Connecting, SessionEvent::ConnectFailed)
        | (SessionState::Registering, SessionEvent::RegistrationFailed)
        | (SessionState::Registering, SessionEvent::Closed)
        | (SessionState::Registering, SessionEvent::StreamError)
        | (SessionState::Active, SessionEvent::Closed)
        | (SessionState::Active, SessionEvent::StreamError) => (
            SessionState::Disconnected,
            SessionAction::TearDownAndWait(RECONNECT_DELAY_SECS),
        ),
        _ => (s, SessionAction::Ignore),
    }
}

/// A failure at any stage ends the session and schedules a new attempt after
/// the fixed delay; a disconnected worker always tries again once it has
/// passed, so retries never run out.
pub proof fn lemma_failures_retry(s: SessionState, e: SessionEvent)
    requires
        s != SessionState::Disconnected,
        e == SessionEvent::Closed || e == SessionEvent::StreamError,
        s != SessionState::Connecting,
    ensures
        session_step(s, e) == (
            SessionState::Disconnected,
            SessionAction::TearDownAndWait(RECONNECT_DELAY_SECS),
        ),
        session_step(session_step(s, e).0, SessionEvent::RetryElapsed) == (
            SessionState::Connecting,
            SessionAction::Connect,
        ),
{
}

/// The registration message of a worker.
pub fn registration_message(
    judge_id: String,
    version: String,
    timestamp: i64,
    signature: String,
    languages: Vec<Language>,
) -> (r: JudgeToApiMessage)
    ensures
        r == JudgeToApiMessage::Register(
            JudgeInfo { judge_id, version, timestamp, signature, languages },
        ),
{
    JudgeToApiMessage::Register(JudgeInfo { judge_id, version, timestamp, signature, languages })
}

/// The task that an inbound message carries; an acknowledgement carries none.
pub fn inbound_task(msg: ApiToJudgeMessage) -> (r: Option<JudgeTask>)
    ensures
        match msg {
            ApiToJudgeMessage::JudgeTask(t) => r == Some(t),
            ApiToJudgeMessage::Pong => r is None,
        },
{
    match msg {
        ApiToJudgeMessage::JudgeTask(t) => Some(t),
        ApiToJudgeMessage::Pong => None,
    }
}

/// `s` with every occurrence of `from`, taken left to right without overlap,
/// replaced by `to`.
pub open spec fn replace_all(s: Seq<char>, from: Seq<char>, to: Seq<char>) -> Seq<char>
    decreases s.len(),
{
    if from.len() == 0 || s.len() < from.len() {
        s
    } else if s.subrange(0, from.len() as int) == from {
        to + replace_all(s.subrange(from.len() as int, s.len() as int), from, to)
    } else {
        seq![s[0]] + replace_all(s.drop_first(), from, to)
    }
}

/// Relies on `str::replace`: each non-overlapping occurrence of a non-empty
/// pattern, found from the left, is replaced.
#[verifier::external_body]
fn replace_text(s: &str, from: &str, to: &str) -> (r: String)
    requires
        from@.len() > 0,
    ensures
        r@ == replace_all(s@, from@, to@),
{
    s.replace(from, to)
}

/// The path of the server's worker endpoint.
pub const WS_PATH: &'static str = "/api/judge/ws";

/// The WebSocket address of the server's worker endpoint, from its HTTP address.
pub open spec fn ws_url_of(api_url: Seq<char>) -> Seq<char> {
    replace_all(replace_all(api_url, "http://"@, "ws://"@), "https://"@, "wss://"@) + WS_PATH@
}

/// The WebSocket address of the server's worker endpoint: `http://` becomes
/// `ws://`, `https://` becomes `wss://`, and the endpoint's path is appended.
pub fn ws_url(api_url: &str) -> (r: String)
    ensures
        r@ == ws_url_of(api_url@),
{
    proof {
        reveal_strlit("http://");
        reveal_strlit("https://");
    }
    let a = replace_text(api_url, "http://", "ws://");
    let mut b = replace_text(a.as_str(), "https://", "wss://");
    b.append(WS_PATH);
    b
}

} // verus!
