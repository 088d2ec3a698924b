//! The per-client bot of a media worker: its negotiation state machine and
//! the ICE candidate buffering that the offer/answer order requires. The
//! peer connection itself lives outside; the bot tells its owner what to do
//! with it through actions.

use vstd::prelude::*;
use crate::ids::strs;
use crate::signaling_msgs::{ErrorCode, SignalingMessage, SignalingView};

verus! {

/// Where the bot stands in the offer/answer exchange.
#[derive(Debug, Clone, Copy, PartialEq, Eq, Structural)]
pub enum NegotiationState {
    /// Created; no remote description yet.
    New,
    /// Remote and local descriptions are set.
    Active,
    Failed,
    Closed,
}

/// States of the peer connection reported by its callback.
#[derive(Debug, Clone, Copy, PartialEq, Eq, Structural)]
pub enum PeerState {
    Connected,
    Disconnected,
    Failed,
    Closed,
}

/// What the bot asks its owner to do.
pub enum BotAction {
    /// Set this offer as remote description, create an answer, set it as
    /// local description and report it with `on_local_description`.
    ApplyOffer { sdp: String },
    /// Send this message over the uplink.
    Send { msg: SignalingMessage },
    /// Hand a remote ICE candidate to the peer connection.
    AddRemoteCandidate { candidate: String },
    /// Release the peer connection and leave the bus.
    Terminate,
}

/// An action with its strings as character sequences.
pub enum ActionView {
    ApplyOffer { sdp: Seq<char> },
    Send { msg: SignalingView },
    AddRemoteCandidate { candidate: Seq<char> },
    Terminate,
}

impl View for BotAction {
    type V = ActionView;

    open spec fn view(&self) -> ActionView {
        match self {
            BotAction::ApplyOffer { sdp } => ActionView::ApplyOffer { sdp: sdp@ },
            BotAction::Send { msg } => ActionView::Send { msg: msg@ },
            BotAction::AddRemoteCandidate { candidate } => ActionView::AddRemoteCandidate {
                candidate: candidate@,
            },
            BotAction::Terminate => ActionView::Terminate,
        }
    }
}

/// The action sends an `Error` message with this code.
pub open spec fn sends_error(a: ActionView, code: ErrorCode) -> bool {
    match a {
        ActionView::Send { msg: SignalingView::Error { code: c, .. } } => c == code,
        _ => false,
    }
}

/// The views of a list of actions.
pub open spec fn actions_view(v: Seq<BotAction>) -> Seq<ActionView> {
    v.map_values(|a: BotAction| a@)
}

/// A bot as its contracts see it.
pub struct BotView {
    pub bot_id: Seq<char>,
    pub client_id: Seq<char>,
    pub state: NegotiationState,
    /// Local candidates found before the answer was sent, oldest first.
    pub cached_candidates: Seq<Seq<char>>,
    /// Remote candidates received before the offer, oldest first.
    pub pending_remote: Seq<Seq<char>>,
}

impl BotView {
    pub open spec fn is_terminal(self) -> bool {
        self.state == NegotiationState::Failed || self.state == NegotiationState::Closed
    }

    /// A local candidate signed by this bot and addressed to its client.
    pub open spec fn candidate_msg(self, c: Seq<char>) -> ActionView {
        ActionView::Send {
            msg: SignalingView::IceCandidate { from: self.bot_id, to: self.client_id, candidate: c },
        }
    }

    /// What follows the local description: the answer, then every cached
    /// local candidate in the order found, then every pending remote
    /// candidate in the order received.
    pub open spec fn answer_actions(self, sdp: Seq<char>) -> Seq<ActionView> {
        seq![ActionView::Send { msg: SignalingView::Answer { from: self.bot_id, to: self.client_id, sdp } }]
            + self.cached_candidates.map_values(|c: Seq<char>| self.candidate_msg(c))
            + self.pending_remote.map_values(
            |c: Seq<char>| ActionView::AddRemoteCandidate { candidate: c },
        )
    }
}

/// One bot per client.
pub struct Bot {
    pub bot_id: String,
    pub client_id: String,
    state: NegotiationState,
    cached_candidates: Vec<String>,
    pending_remote: Vec<String>,
}

impl View for Bot {
    type V = BotView;

    closed spec fn view(&self) -> BotView {
        BotView {
            bot_id: self.bot_id@,
            client_id: self.client_id@,
            state: self.state,
            cached_candidates: strs(self.cached_candidates@),
            pending_remote: strs(self.pending_remote@),
        }
    }
}

/// A character of xid's text alphabet `0-9a-v`.
pub open spec fn is_xid_char(c: char) -> bool {
    ('0' <= c && c <= '9') || ('a' <= c && c <= 'v')
}

/// Relies on xid's `new` and the `Display` of its id: twenty characters of
/// the alphabet `0-9a-v`, unique within and across processes.
#[verifier::external_body]
fn new_xid() -> (r: String)
    ensures
        r@.len() == 20,
        forall|i: int| 0 <= i < 20 ==> is_xid_char(#[trigger] r@[i]),
{
    xid::new().to_string()
}

impl Bot {
    /// A new bot for `client_id`, signing its messages with `bot_id`.
    pub fn new(bot_id: String, client_id: String) -> (r: Bot)
        ensures
            r@ == (BotView {
                bot_id: bot_id@,
                client_id: client_id@,
                state: NegotiationState::New,
                cached_candidates: seq![],
                pending_remote: seq![],
            }),
    {
        let r = Bot {
            bot_id,
            client_id,
            state: NegotiationState::New,
            cached_candidates: Vec::new(),
            pending_remote: Vec::new(),
        };
        assert(r@.cached_candidates =~= seq![]);
        assert(r@.pending_remote =~= seq![]);
        r
    }

    /// A new bot for `client_id` with a freshly generated id.
    pub fn spawn_for(client_id: String) -> (r: Bot)
        ensures
            r@.client_id == client_id@,
            r@.bot_id.len() == 20,
            forall|i: int| 0 <= i < 20 ==> is_xid_char(#[trigger] r@.bot_id[i]),
            r@.state == NegotiationState::New,
            r@.cached_candidates.len() == 0,
            r@.pending_remote.len() == 0,
    {
        Bot::new(new_xid(), client_id)
    }

    /// Where the negotiation stands.
    pub fn state(&self) -> (r: NegotiationState)
        ensures
            r == self@.state,
    {
        self.state
    }

    /// Handles a message from the bus. In a terminal state everything is
    /// dropped. An offer is applied, also on an active connection
    /// (renegotiation); an answer is an error before the offer and ignored
    /// after it, as the bot only answers; a remote candidate waits for the
    /// offer, then goes to the peer connection; a disconnect closes the bot.
    pub fn handle_message(&mut self, msg: SignalingMessage) -> (r: Vec<BotAction>)
        ensures
            final(self)@.bot_id == old(self)@.bot_id,
            final(self)@.client_id == old(self)@.client_id,
            old(self)@.is_terminal() ==> final(self)@ == old(self)@ && r@.len() == 0,
            !old(self)@.is_terminal() ==> match msg@ {
                SignalingView::Offer { sdp, .. } => final(self)@ == old(self)@ && actions_view(r@)
                    == seq![ActionView::ApplyOffer { sdp }],
                SignalingView::Answer { .. } => final(self)@ == old(self)@ && if old(self)@.state
                    == NegotiationState::New {
                    r@.len() == 1 && sends_error(r@[0]@, ErrorCode::Unexpected)
                } else {
                    r@.len() == 0
                },
                SignalingView::IceCandidate { candidate, .. } => if old(self)@.state
                    == NegotiationState::New {
                    final(self)@ == (BotView {
                        pending_remote: old(self)@.pending_remote.push(candidate),
                        ..old(self)@
                    }) && r@.len() == 0
                } else {
                    final(self)@ == old(self)@ && actions_view(r@) == seq![
                        ActionView::AddRemoteCandidate { candidate },
                    ]
                },
                SignalingView::ClientDisconnect { .. } => final(self)@ == (BotView {
                    state: NegotiationState::Closed,
                    ..old(self)@
                }) && actions_view(r@) == seq![ActionView::Terminate],
                _ => final(self)@ == old(self)@ && r@.len() == 0,
            },
    {
        let mut out: Vec<BotAction> = Vec::new();
        if self.state == NegotiationState::Failed || self.state == NegotiationState::Closed {
            return out;
        }
        match msg {
            SignalingMessage::Offer { sdp, .. } => {
                out.push(BotAction::ApplyOffer { sdp });
                assert(actions_view(out@) =~= seq![ActionView::ApplyOffer { sdp: sdp@ }]);
            },
            SignalingMessage::Answer { .. } => {
                if self.state == NegotiationState::New {
                    out.push(
                        BotAction::Send {
                            msg: SignalingMessage::error(
                                ErrorCode::Unexpected,
                                "no offer has been received".to_string(),
                            ),
                        },
                    );
                }
            },
            SignalingMessage::IceCandidate { candidate, .. } => {
                if self.state == NegotiationState::New {
                    let ghost before = self.pending_remote@;
                    self.pending_remote.push(candidate);
                    assert(strs(self.pending_remote@) =~= strs(before).push(candidate@));
                } else {
                    out.push(BotAction::AddRemoteCandidate { candidate });
                    assert(actions_view(out@) =~= seq![
                        ActionView::AddRemoteCandidate { candidate: candidate@ },
                    ]);
                }
            },
            SignalingMessage::ClientDisconnect { .. } => {
                self.state = NegotiationState::Closed;
                out.push(BotAction::Terminate);
                assert(actions_view(out@) =~= seq![ActionView::Terminate]);
            },
            _ => {},
        }
        out
    }

    /// Reports the local description set after an offer. The answer goes
    /// out first, then the local candidates cached until now in the order
    /// they were found, and the remote candidates that arrived before the
    /// offer go to the peer connection; both caches are emptied and the
    /// bot is active. A terminal bot does nothing.
    pub fn on_local_description(&mut self, sdp: String) -> (r: Vec<BotAction>)
        ensures
            old(self)@.is_terminal() ==> final(self)@ == old(self)@ && r@.len() == 0,
            !old(self)@.is_terminal() ==> {
                &&& actions_view(r@) == old(self)@.answer_actions(sdp@)
                &&& final(self)@ == (BotView {
                    state: NegotiationState::Active,
                    cached_candidates: seq![],
                    pending_remote: seq![],
                    ..old(self)@
                })
            },
    {
        let mut out: Vec<BotAction> = Vec::new();
        if self.state == NegotiationState::Failed || self.state == NegotiationState::Closed {
            return out;
        }
        let ghost v0 = self@;
        out.push(
            BotAction::Send {
                msg: SignalingMessage::Answer {
                    from: self.bot_id.clone(),
                    to: self.client_id.clone(),
                    sdp,
                },
            },
        );
        let ghost first = actions_view(out@);
        let mut i: usize = 0;
        while i < self.cached_candidates.len()
            invariant
                self@ == v0,
                0 <= i <= v0.cached_candidates.len(),
                actions_view(out@) == first + v0.cached_candidates.take(i as int).map_values(
                    |c: Seq<char>| v0.candidate_msg(c),
                ),
            decreases v0.cached_candidates.len() - i,
        {
            let ghost before = out@;
            let m = SignalingMessage::IceCandidate {
                from: self.bot_id.clone(),
                to: self.client_id.clone(),
                candidate: self.cached_candidates[i].clone(),
            };
            out.push(BotAction::Send { msg: m });
            assert(v0.cached_candidates.take(i + 1) =~= v0.cached_candidates.take(i as int).push(
                v0.cached_candidates[i as int],
            ));
            assert(actions_view(out@) =~= actions_view(before).push(
                v0.candidate_msg(v0.cached_candidates[i as int]),
            ));
            i = i + 1;
        }
        assert(v0.cached_candidates.take(v0.cached_candidates.len() as int) =~= v0.cached_candidates);
        let ghost second = actions_view(out@);
        let mut k: usize = 0;
        while k < self.pending_remote.len()
            invariant
                self@ == v0,
                0 <= k <= v0.pending_remote.len(),
                actions_view(out@) == second + v0.pending_remote.take(k as int).map_values(
                    |c: Seq<char>| ActionView::AddRemoteCandidate { candidate: c },
                ),
            decreases v0.pending_remote.len() - k,
        {
            let ghost before = out@;
            out.push(BotAction::AddRemoteCandidate { candidate: self.pending_remote[k].clone() });
            assert(v0.pending_remote.take(k + 1) =~= v0.pending_remote.take(k as int).push(
                v0.pending_remote[k as int],
            ));
            assert(actions_view(out@) =~= actions_view(before).push(
                ActionView::AddRemoteCandidate { candidate: v0.pending_remote[k as int] },
            ));
            k = k + 1;
        }
        assert(v0.pending_remote.take(v0.pending_remote.len() as int) =~= v0.pending_remote);
        assert(actions_view(out@) =~= v0.answer_actions(sdp@));
        self.cached_candidates = Vec::new();
        self.pending_remote = Vec::new();
        self.state = NegotiationState::Active;
        assert(self@.cached_candidates =~= seq![]);
        assert(self@.pending_remote =~= seq![]);
        out
    }

    /// Reports a local ICE candidate found by the peer connection. Before
    /// the answer it is cached; after it, it is sent at once; a terminal
    /// bot drops it.
    pub fn on_local_candidate(&mut self, candidate: String) -> (r: Vec<BotAction>)
        ensures
            old(self)@.is_terminal() ==> final(self)@ == old(self)@ && r@.len() == 0,
            old(self)@.state == NegotiationState::New ==> final(self)@ == (BotView {
                cached_candidates: old(self)@.cached_candidates.push(candidate@),
                ..old(self)@
            }) && r@.len() == 0,
            old(self)@.state == NegotiationState::Active ==> final(self)@ == old(self)@ && actions_view(
                r@,
            ) == seq![old(self)@.candidate_msg(candidate@)],
    {
        let mut out: Vec<BotAction> = Vec::new();
        if self.state == NegotiationState::New {
            let ghost before = self.cached_candidates@;
            self.cached_candidates.push(candidate);
            assert(strs(self.cached_candidates@) =~= strs(before).push(candidate@));
        } else if self.state == NegotiationState::Active {
            out.push(
                BotAction::Send {
                    msg: SignalingMessage::IceCandidate {
                        from: self.bot_id.clone(),
                        to: self.client_id.clone(),
                        candidate,
                    },
                },
            );
            assert(actions_view(out@) =~= seq![self@.candidate_msg(candidate@)]);
        }
        out
    }

    /// Reports a state change of the peer connection. On failure or close
    /// the bot ends: the client is told to disconnect and the bot
    /// terminates. Other states change nothing.
    pub fn on_peer_state(&mut self, s: PeerState) -> (r: Vec<BotAction>)
        ensures
            (old(self)@.is_terminal() || s == PeerState::Connected || s == PeerState::Disconnected)
                ==> final(self)@ == old(self)@ && r@.len() == 0,
            !old(self)@.is_terminal() && (s == PeerState::Failed || s == PeerState::Closed) ==> {
                &&& final(self)@ == (BotView {
                    state: if s == PeerState::Failed {
                        NegotiationState::Failed
                    } else {
                        NegotiationState::Closed
                    },
                    ..old(self)@
                })
                &&& actions_view(r@) == seq![
                    ActionView::Send {
                        msg: SignalingView::ClientDisconnect { client_id: old(self)@.client_id },
                    },
                    ActionView::Terminate,
                ]
            },
    {
        let mut out: Vec<BotAction> = Vec::new();
        if self.state == NegotiationState::Failed || self.state == NegotiationState::Closed {
            return out;
        }
        match s {
            PeerState::Failed | PeerState::Closed => {
                self.state = if s == PeerState::Failed {
                    NegotiationState::Failed
                } else {
                    NegotiationState::Closed
                };
                out.push(
                    BotAction::Send {
                        msg: SignalingMessage::ClientDisconnect { client_id: self.client_id.clone() },
                    },
                );
                out.push(BotAction::Terminate);
                assert(actions_view(out@) =~= seq![
                    ActionView::Send {
                        msg: SignalingView::ClientDisconnect { client_id: self@.client_id },
                    },
                    ActionView::Terminate,
                ]);
            },
            _ => {},
        }
        out
    }

    /// The bot's mailbox closed: the bot ends.
    pub fn on_mailbox_closed(&mut self) -> (r: Vec<BotAction>)
        ensures
            old(self)@.is_terminal() ==> final(self)@ == old(self)@ && r@.len() == 0,
            !old(self)@.is_terminal() ==> final(self)@ == (BotView {
                state: NegotiationState::Closed,
                ..old(self)@
            }) && actions_view(r@) == seq![ActionView::Terminate],
    {
        let mut out: Vec<BotAction> = Vec::new();
        if self.state == NegotiationState::Failed || self.state == NegotiationState::Closed {
            return out;
        }
        self.state = NegotiationState::Closed;
        out.push(BotAction::Terminate);
        assert(actions_view(out@) =~= seq![ActionView::Terminate]);
        out
    }
}

} // verus!
