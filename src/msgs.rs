//! Message shapes of the HTTP call endpoint and of the earlier
//! event-based worker protocol, kept for the peers that still speak it.

use vstd::prelude::*;

verus! {

/// Kind of a client frame in the event-based protocol.
#[derive(Debug, Clone, Copy, PartialEq, Eq, Structural)]
pub enum ClientMsgType {
    Connect,
    Message,
    Offer,
    HangUP,
    Answer,
    Candidate,
}

/// A client frame in the event-based protocol.
#[derive(Debug, Clone)]
pub struct ClientMsg {
    pub msg_type: ClientMsgType,
    pub payload: String,
}

/// Events of the event-based worker protocol.
#[derive(Debug, Clone, Copy, PartialEq, Eq, Structural)]
pub enum ServerEvent {
    Register,
    Unregister,
    Calling,
    Message,
    Answer,
    Candidate,
}

/// A worker frame in the event-based protocol.
#[derive(Debug, Clone)]
pub struct RawMessage {
    pub server_type: String,
    pub server_id: String,
    pub payload: String,
    pub event: ServerEvent,
}

/// The same frame as a worker sends it.
#[derive(Debug, Clone)]
pub struct ServerMsg {
    pub server_type: String,
    pub server_id: String,
    pub payload: String,
    pub event: ServerEvent,
}

/// Steps of a server-initiated call.
#[derive(Debug, Clone, Copy, PartialEq, Eq, Structural)]
pub enum RTCCallEvent {
    Call,
    Answer,
    Reject,
}

/// A step of a server-initiated call.
#[derive(Debug, Clone)]
pub struct RTCCallRequest {
    pub user_id: String,
    pub sdp: String,
    pub payload: String,
    pub event: RTCCallEvent,
}

/// Body of a call request to the HTTP endpoint.
#[derive(Debug, Clone)]
pub struct CallRequest {
    pub user_id: String,
    pub sdp: String,
    pub payload: String,
}

/// Answer of the HTTP call endpoint.
#[derive(Debug, Clone)]
pub struct RoomAssignResponse {
    pub success: bool,
    pub server_id: Option<String>,
    pub error: Option<String>,
}

/// Payload of a `Calling` event.
#[derive(Debug, Clone)]
pub struct CallingPayload {
    pub room_id: String,
    pub user_id: String,
    pub sdp: String,
}

/// Payload of a `Candidate` event.
#[derive(Debug, Clone)]
pub struct CandidatePayload {
    pub user_id: String,
    pub candidate: String,
}

/// Kind of a room message.
#[derive(Debug, Clone, Copy, PartialEq, Eq, Structural)]
pub enum MessageType {
    Offer,
    Answer,
}

/// An SDP exchanged inside a room.
#[derive(Debug, Clone)]
pub struct RoomMessage {
    pub message_type: MessageType,
    pub room_id: String,
    pub user_id: String,
    pub sdp: String,
}

/// Results of audio processing reported for a user.
#[derive(Debug, Clone)]
pub enum AudioProcessingResult {
    VadResult(bool),
    AsrResult(String),
}

/// Events delivered to a bot in the event-based protocol: room id, user id
/// and, for a message, its text.
#[derive(Debug, Clone)]
pub enum BotEvent {
    UserJoin(String, String),
    UserLeave(String, String),
    Message(String, String, String),
}

/// The answer of the call endpoint for the outcome of an assignment.
pub fn room_assign_response(server_id: Option<String>) -> (r: RoomAssignResponse)
    ensures
        r.success == server_id is Some,
        r.server_id == server_id,
        r.error is Some <==> server_id is None,
{
    match server_id {
        Some(s) => RoomAssignResponse { success: true, server_id: Some(s), error: None },
        None => RoomAssignResponse {
            success: false,
            server_id: None,
            error: Some("No available server".to_string()),
        },
    }
}

} // verus!
