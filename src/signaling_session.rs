//! Decisions of the signaling server's per-connection sessions: admitting a
//! worker or a client by its first frame, routing what each side sends, and
//! the cleanup when a connection ends. The sessions' sockets and tasks run
//! outside; they act on what these functions return.

use vstd::prelude::*;
use crate::registry_laws::lemma_client_position;
use crate::server_mngr::ServerMngr;
use crate::signaling_msgs::{ErrorCode, SignalingMessage, SignalingView};
use crate::wire::{decode, decoding};

verus! {

/// Where a frame from a worker goes.
pub enum WorkerRoute {
    /// Deliver the message to this client.
    ToClient { client_id: String, msg: SignalingMessage },
    /// Log and drop the frame; the connection stays open.
    Drop,
    /// The worker shuts down: close the connection.
    Close,
}

/// Where a frame from a client goes.
pub enum ClientRoute {
    /// Deliver the message to this worker.
    ToWorker { server_id: String, msg: SignalingMessage },
    /// Answer the client with this message; the connection stays open.
    Reply { msg: SignalingMessage },
    /// Log and drop the frame.
    Drop,
    /// The client leaves: end the session.
    Close,
}

/// A client that was admitted and bound to a worker.
pub struct ClientAdmission {
    pub client_id: String,
    pub server_id: String,
    /// Sent back to the client.
    pub reply: SignalingMessage,
    /// Forwarded to the worker, so that it creates a bot for the client.
    pub to_worker: SignalingMessage,
}

/// The error code an `Error` message carries.
pub open spec fn error_code(m: SignalingView) -> Option<ErrorCode> {
    match m {
        SignalingView::Error { code, .. } => Some(code),
        _ => None,
    }
}

/// Handles a worker's first frame. A registration of a new id registers the
/// worker with its mailbox and yields its id and the acknowledgement to
/// send; any other frame, or a known id, yields the error to send before
/// the connection is closed.
pub fn admit_worker<W, C>(reg: &mut ServerMngr<W, C>, first: SignalingMessage, sig_tx: W) -> (r:
    Result<(String, SignalingMessage), SignalingMessage>)
    requires
        old(reg).wf(),
    ensures
        final(reg).wf(),
        match first@ {
            SignalingView::ServerRegister { server_id } => if old(reg)@.has_worker(server_id) {
                &&& final(reg)@ == old(reg)@
                &&& r matches Err(e) && error_code(e@) == Some(ErrorCode::Protocol)
            } else {
                &&& final(reg)@ == old(reg)@.registering_worker(server_id, sig_tx)
                &&& r matches Ok((id, reply)) && id@ == server_id && reply@
                    == (SignalingView::ServerRegistered { server_id })
            },
            _ => {
                &&& final(reg)@ == old(reg)@
                &&& r matches Err(e) && error_code(e@) == Some(ErrorCode::ExpectedRegister)
            },
        },
{
    match first {
        SignalingMessage::ServerRegister { server_id } => {
            let id = server_id.clone();
            match reg.register_server(server_id, sig_tx) {
                Ok(()) => {
                    let reply = SignalingMessage::ServerRegistered { server_id: id.clone() };
                    Ok((id, reply))
                },
                Err(_) => Err(
                    SignalingMessage::error(ErrorCode::Protocol, "worker id already registered".to_string()),
                ),
            }
        },
        _ => Err(
            SignalingMessage::error(ErrorCode::ExpectedRegister, "first frame must register the worker".to_string()),
        ),
    }
}

/// Routes a frame from the registered worker `server_id`. An offer, answer
/// or candidate goes to its `to` client, and a client disconnect to its
/// client, when that client is bound to this worker; otherwise they are
/// dropped. A server disconnect closes the session; all else is dropped.
///
/// The binding checked is that of `to`, not `from`: bots sign what they
/// send with their own bot id, which the registry does not know, and
/// address it to their client, which the registry binds to its worker.
pub fn route_from_worker<W, C>(reg: &ServerMngr<W, C>, server_id: &str, msg: SignalingMessage) -> (r:
    WorkerRoute)
    requires
        reg.wf(),
    ensures
        match msg@ {
            SignalingView::Offer { to, .. } | SignalingView::Answer { to, .. }
            | SignalingView::IceCandidate { to, .. } | SignalingView::ClientDisconnect {
                client_id: to,
            } => if reg@.bound(to, server_id@) {
                r matches WorkerRoute::ToClient { client_id, msg: m } && client_id@ == to && m@
                    == msg@
            } else {
                r is Drop
            },
            SignalingView::ServerDisconnect { .. } => r is Close,
            _ => r is Drop,
        },
{
    let to = match &msg {
        SignalingMessage::Offer { to, .. } => to.clone(),
        SignalingMessage::Answer { to, .. } => to.clone(),
        SignalingMessage::IceCandidate { to, .. } => to.clone(),
        SignalingMessage::ClientDisconnect { client_id } => client_id.clone(),
        SignalingMessage::ServerDisconnect { .. } => {
            return WorkerRoute::Close;
        },
        _ => {
            return WorkerRoute::Drop;
        },
    };
    let serving = reg.get_client_server(to.as_str());
    proof {
        if reg@.bound(to@, server_id@) {
            let j = choose|j: int|
                0 <= j < reg@.clients.len() && #[trigger] reg@.clients[j].client_id == to@
                    && reg@.clients[j].server_id == Some(server_id@);
            lemma_client_position(reg@, j);
        }
    }
    match serving {
        Some(s) => {
            if crate::ids::same_id(s.as_str(), server_id) {
                WorkerRoute::ToClient { client_id: to, msg }
            } else {
                WorkerRoute::Drop
            }
        },
        None => WorkerRoute::Drop,
    }
}

/// Cleanup when a worker's connection ends: the worker is removed, its
/// clients stay registered but unbound, and each of them is sent a
/// `ClientDisconnect`, in the order they were bound.
pub fn close_worker<W, C>(reg: &mut ServerMngr<W, C>, server_id: &str) -> (r: Vec<SignalingMessage>)
    requires
        old(reg).wf(),
    ensures
        final(reg).wf(),
        final(reg)@ == old(reg)@.removing_worker(server_id@),
        r@.len() == old(reg)@.orphans(server_id@).len(),
        forall|i: int|
            0 <= i < r@.len() ==> (#[trigger] r@[i])@ == (SignalingView::ClientDisconnect {
                client_id: old(reg)@.orphans(server_id@)[i],
            }),
{
    let orphans = reg.remove_server(server_id);
    let mut notices: Vec<SignalingMessage> = Vec::new();
    let mut i: usize = 0;
    while i < orphans.len()
        invariant
            0 <= i <= orphans@.len(),
            notices@.len() == i,
            forall|k: int|
                0 <= k < i ==> (#[trigger] notices@[k])@ == (SignalingView::ClientDisconnect {
                    client_id: orphans@[k]@,
                }),
        decreases orphans@.len() - i,
    {
        notices.push(SignalingMessage::ClientDisconnect { client_id: orphans[i].clone() });
        i = i + 1;
    }
    notices
}

/// Handles a client's first frame. A `ClientConnect` with a new id
/// registers the client and binds it to the least loaded worker; the client
/// is told its worker and the worker gets the `ClientConnect`. With no
/// worker the client is removed again and told `no_worker`; a known id or
/// any other frame is a protocol error. On every error the connection is
/// closed after the error is sent.
pub fn admit_client<W, C>(reg: &mut ServerMngr<W, C>, first: SignalingMessage, client_tx: C) -> (r:
    Result<ClientAdmission, SignalingMessage>)
    requires
        old(reg).wf(),
    ensures
        final(reg).wf(),
        match first@ {
            SignalingView::ClientConnect { client_id } => if old(reg)@.has_client(client_id) {
                &&& final(reg)@ == old(reg)@
                &&& r matches Err(e) && error_code(e@) == Some(ErrorCode::Protocol)
            } else {
                let joined = old(reg)@.registering_client(client_id, client_tx);
                match joined.assignment(client_id) {
                    None => {
                        &&& final(reg)@ == joined.removing_client(client_id)
                        &&& r matches Err(e) && error_code(e@) == Some(ErrorCode::NoWorker)
                    },
                    Some(s) => {
                        &&& final(reg)@ == joined.assigning(client_id)
                        &&& r matches Ok(a) && a.client_id@ == client_id && a.server_id@ == s
                            && a.reply@ == (SignalingView::ClientConnected {
                            client_id,
                            server_id: s,
                        }) && a.to_worker@ == (SignalingView::ClientConnect { client_id })
                    },
                }
            },
            _ => {
                &&& final(reg)@ == old(reg)@
                &&& r matches Err(e) && error_code(e@) == Some(ErrorCode::Protocol)
            },
        },
{
    match first {
        SignalingMessage::ClientConnect { client_id } => {
            let id = client_id.clone();
            match reg.register_client(client_id, client_tx) {
                Err(_) => Err(
                    SignalingMessage::error(ErrorCode::Protocol, "client id already connected".to_string()),
                ),
                Ok(()) => {
                    match reg.assign_server_to_client(id.as_str()) {
                        None => {
                            reg.remove_client(id.as_str());
                            Err(
                                SignalingMessage::error(ErrorCode::NoWorker, "no worker available".to_string()),
                            )
                        },
                        Some(server_id) => {
                            let reply = SignalingMessage::ClientConnected {
                                client_id: id.clone(),
                                server_id: server_id.clone(),
                            };
                            let to_worker = SignalingMessage::ClientConnect { client_id: id.clone() };
                            Ok(ClientAdmission { client_id: id, server_id, reply, to_worker })
                        },
                    }
                },
            }
        },
        _ => Err(
            SignalingMessage::error(ErrorCode::Protocol, "first frame must be a client connect".to_string()),
        ),
    }
}

/// Routes a frame from the admitted client `client_id`. An offer, answer or
/// candidate goes to the worker serving the client, and is dropped when
/// none does; a client disconnect ends the session; any other message is
/// answered with `unexpected`.
pub fn route_from_client<W, C>(reg: &ServerMngr<W, C>, client_id: &str, msg: SignalingMessage) -> (r:
    ClientRoute)
    requires
        reg.wf(),
    ensures
        if msg@.is_negotiation() {
            match (if reg@.has_client(client_id@) {
                reg@.clients[reg@.client_index(client_id@)].server_id
            } else {
                None
            }) {
                Some(s) => r matches ClientRoute::ToWorker { server_id, msg: m } && server_id@ == s
                    && m@ == msg@,
                None => r is Drop,
            }
        } else if msg@ is ClientDisconnect {
            r is Close
        } else {
            r matches ClientRoute::Reply { msg: m } && error_code(m@) == Some(ErrorCode::Unexpected)
        },
{
    if let SignalingMessage::ClientDisconnect { .. } = &msg {
        return ClientRoute::Close;
    }
    if !msg.is_negotiation() {
        return ClientRoute::Reply {
            msg: SignalingMessage::error(ErrorCode::Unexpected, "only offers, answers and candidates are relayed".to_string()),
        };
    }
    match reg.get_client_server(client_id) {
        Some(server_id) => ClientRoute::ToWorker { server_id, msg },
        None => ClientRoute::Drop,
    }
}

/// A worker that does not drain its mailbox is disconnected: the error to
/// send it before its connection closes, and the cleanup of `close_worker`.
pub fn close_slow_worker<W, C>(reg: &mut ServerMngr<W, C>, server_id: &str) -> (r: (
    SignalingMessage,
    Vec<SignalingMessage>,
))
    requires
        old(reg).wf(),
    ensures
        final(reg).wf(),
        final(reg)@ == old(reg)@.removing_worker(server_id@),
        error_code(r.0@) == Some(ErrorCode::SlowConsumer),
        r.1@.len() == old(reg)@.orphans(server_id@).len(),
        forall|i: int|
            0 <= i < r.1@.len() ==> (#[trigger] r.1@[i])@ == (SignalingView::ClientDisconnect {
                client_id: old(reg)@.orphans(server_id@)[i],
            }),
{
    let notices = close_worker(reg, server_id);
    (SignalingMessage::error(ErrorCode::SlowConsumer, "mailbox full".to_string()), notices)
}

/// Cleanup when a client's session ends: the client is removed, and when a
/// worker served it, that worker's id is returned with the
/// `ClientDisconnect` that lets it stop the client's bot.
pub fn close_client<W, C>(reg: &mut ServerMngr<W, C>, client_id: &str) -> (r: Option<
    (String, SignalingMessage),
>)
    requires
        old(reg).wf(),
    ensures
        final(reg).wf(),
        final(reg)@ == old(reg)@.removing_client(client_id@),
        match (if old(reg)@.has_client(client_id@) {
            old(reg)@.clients[old(reg)@.client_index(client_id@)].server_id
        } else {
            None
        }) {
            Some(s) => r matches Some((server_id, notice)) && server_id@ == s && notice@
                == (SignalingView::ClientDisconnect { client_id: client_id@ }),
            None => r is None,
        },
{
    let serving = reg.get_client_server(client_id);
    reg.remove_client(client_id);
    match serving {
        Some(server_id) => {
            let notice = SignalingMessage::ClientDisconnect { client_id: client_id.to_string() };
            Some((server_id, notice))
        },
        None => None,
    }
}

/// Reads a text frame from a worker or a client: the message it holds, or,
/// when it holds none, the protocol error to send before the connection is
/// closed.
pub fn read_frame(text: &str) -> (r: Result<SignalingMessage, SignalingMessage>)
    ensures
        match r {
            Ok(m) => decoding(text@) == Some(m@),
            Err(e) => decoding(text@) is None && error_code(e@) == Some(ErrorCode::Protocol),
        },
{
    match decode(text) {
        Some(m) => Ok(m),
        None => Err(SignalingMessage::error(ErrorCode::Protocol, "malformed frame".to_string())),
    }
}

} // verus!
