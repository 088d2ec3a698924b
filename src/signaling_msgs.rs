//! The signaling message schema shared by the signaling server, the media
//! workers and the clients.

use vstd::prelude::*;

verus! {

/// Kinds of out-of-band failure reported in an `Error` message.
#[derive(Debug, Clone, Copy, PartialEq, Eq, Structural)]
pub enum ErrorCode {
    /// Malformed frame, unknown tag, or a frame that the current state does
    /// not take.
    Protocol,
    /// A worker's first frame was not a registration.
    ExpectedRegister,
    /// A worker did not drain its mailbox in time.
    SlowConsumer,
    /// No worker is available for a client.
    NoWorker,
    /// A client sent a message that is not part of the negotiation.
    Unexpected,
    /// The worker serving a client went away.
    WorkerGone,
}

/// A signaling message; SDP and candidate bodies are opaque.
#[derive(Debug, Clone, PartialEq, Eq)]
pub enum SignalingMessage {
    ServerRegister { server_id: String },
    ServerRegistered { server_id: String },
    ServerDisconnect { server_id: String },
    ClientConnect { client_id: String },
    ClientConnected { client_id: String, server_id: String },
    ClientDisconnect { client_id: String },
    Offer { from: String, to: String, sdp: String },
    Answer { from: String, to: String, sdp: String },
    IceCandidate { from: String, to: String, candidate: String },
    Error { code: ErrorCode, message: String },
}

/// A signaling message with its strings as character sequences.
pub enum SignalingView {
    ServerRegister { server_id: Seq<char> },
    ServerRegistered { server_id: Seq<char> },
    ServerDisconnect { server_id: Seq<char> },
    ClientConnect { client_id: Seq<char> },
    ClientConnected { client_id: Seq<char>, server_id: Seq<char> },
    ClientDisconnect { client_id: Seq<char> },
    Offer { from: Seq<char>, to: Seq<char>, sdp: Seq<char> },
    Answer { from: Seq<char>, to: Seq<char>, sdp: Seq<char> },
    IceCandidate { from: Seq<char>, to: Seq<char>, candidate: Seq<char> },
    Error { code: ErrorCode, message: Seq<char> },
}

impl View for SignalingMessage {
    type V = SignalingView;

    open spec fn view(&self) -> SignalingView {
        match self {
            SignalingMessage::ServerRegister { server_id } => SignalingView::ServerRegister {
                server_id: server_id@,
            },
            SignalingMessage::ServerRegistered { server_id } => SignalingView::ServerRegistered {
                server_id: server_id@,
            },
            SignalingMessage::ServerDisconnect { server_id } => SignalingView::ServerDisconnect {
                server_id: server_id@,
            },
            SignalingMessage::ClientConnect { client_id } => SignalingView::ClientConnect {
                client_id: client_id@,
            },
            SignalingMessage::ClientConnected { client_id, server_id } =>
                SignalingView::ClientConnected { client_id: client_id@, server_id: server_id@ },
            SignalingMessage::ClientDisconnect { client_id } => SignalingView::ClientDisconnect {
                client_id: client_id@,
            },
            SignalingMessage::Offer { from, to, sdp } => SignalingView::Offer {
                from: from@,
                to: to@,
                sdp: sdp@,
            },
            SignalingMessage::Answer { from, to, sdp } => SignalingView::Answer {
                from: from@,
                to: to@,
                sdp: sdp@,
            },
            SignalingMessage::IceCandidate { from, to, candidate } => SignalingView::IceCandidate {
                from: from@,
                to: to@,
                candidate: candidate@,
            },
            SignalingMessage::Error { code, message } => SignalingView::Error {
                code: *code,
                message: message@,
            },
        }
    }
}

impl SignalingView {
    /// Offers, answers and ICE candidates: the messages relayed between a
    /// client and its worker.
    pub open spec fn is_negotiation(self) -> bool {
        self is Offer || self is Answer || self is IceCandidate
    }
}

impl SignalingMessage {
    /// Whether this is an offer, an answer or an ICE candidate.
    pub fn is_negotiation(&self) -> (r: bool)
        ensures
            r == self@.is_negotiation(),
    {
        match self {
            SignalingMessage::Offer { .. } => true,
            SignalingMessage::Answer { .. } => true,
            SignalingMessage::IceCandidate { .. } => true,
            _ => false,
        }
    }

    /// An `Error` message with the given code.
    pub fn error(code: ErrorCode, message: String) -> (r: SignalingMessage)
        ensures
            r@ == (SignalingView::Error { code, message: message@ }),
    {
        SignalingMessage::Error { code, message }
    }
}

} // verus!
