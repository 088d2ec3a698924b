//! The worker's message bus: a route map from client id to the mailbox of
//! that client's bot, and the decision of what each message arriving over
//! the uplink leads to.

use vstd::prelude::*;
use crate::ids::same_id;
use crate::signaling_msgs::{SignalingMessage, SignalingView};

verus! {

/// One route: a client and its bot's mailbox.
pub struct Route<M> {
    pub client_id: String,
    pub sender: M,
}

/// Routes in the order they were added; ids are unique.
pub struct MessageRouter<M> {
    bots_senders: Vec<Route<M>>,
}

/// What the uplink loop does with a message from the signaling server.
pub enum BusAction {
    /// Create a bot for this client, then register its mailbox.
    CreateBot { client_id: String },
    /// Put the message into the mailbox of this client's bot.
    Deliver { client_id: String, msg: SignalingMessage },
    /// Stop this client's bot; its route is gone already.
    StopBot { client_id: String },
    /// Log and drop the message.
    Drop,
}

impl<M> MessageRouter<M> {
    /// The routes as (client id, mailbox) pairs.
    pub closed spec fn routes(&self) -> Seq<(Seq<char>, M)> {
        self.bots_senders@.map_values(|r: Route<M>| (r.client_id@, r.sender))
    }

    pub open spec fn has_route(&self, id: Seq<char>) -> bool {
        exists|k: int| 0 <= k < self.routes().len() && #[trigger] self.routes()[k].0 == id
    }

    /// The mailbox routed to for `id`.
    pub open spec fn sender_of(&self, id: Seq<char>) -> M {
        self.routes()[choose|k: int| 0 <= k < self.routes().len() && #[trigger] self.routes()[k].0 == id].1
    }

    /// No client id is routed twice.
    pub open spec fn wf(&self) -> bool {
        forall|a: int, b: int|
            0 <= a < self.routes().len() && 0 <= b < self.routes().len() && a != b
                ==> #[trigger] self.routes()[a].0 != #[trigger] self.routes()[b].0
    }

    /// An empty route map.
    pub fn new() -> (r: Self)
        ensures
            r.routes().len() == 0,
            r.wf(),
    {
        MessageRouter { bots_senders: Vec::new() }
    }

    fn position(&self, id: &str) -> (r: Option<usize>)
        requires
            self.wf(),
        ensures
            match r {
                Some(k) => k < self.routes().len() && self.routes()[k as int].0 == id@ && self.has_route(id@)
                    && self.sender_of(id@) == self.routes()[k as int].1,
                None => !self.has_route(id@),
            },
    {
        let mut k: usize = 0;
        while k < self.bots_senders.len()
            invariant
                self.wf(),
                0 <= k <= self.bots_senders@.len(),
                forall|q: int| 0 <= q < k ==> self.routes()[q].0 != id@,
            decreases self.bots_senders@.len() - k,
        {
            if same_id(self.bots_senders[k].client_id.as_str(), id) {
                proof {
                    assert(self.routes()[k as int].0 == id@);
                    let c = choose|q: int| 0 <= q < self.routes().len() && #[trigger] self.routes()[q].0 == id@;
                    assert(self.routes()[c].0 == self.routes()[k as int].0);
                }
                return Some(k);
            }
            k = k + 1;
        }
        None
    }

    /// Adds a route for a client that has none, and tells whether it did; a
    /// client with a route keeps it.
    pub fn add_route(&mut self, client_id: &String, sender: M) -> (r: bool)
        requires
            old(self).wf(),
        ensures
            final(self).wf(),
            r == !old(self).has_route(client_id@),
            r ==> final(self).routes() == old(self).routes().push((client_id@, sender)),
            !r ==> final(self).routes() == old(self).routes(),
    {
        match self.position(client_id.as_str()) {
            Some(_) => false,
            None => {
                let ghost before = self.routes();
                self.bots_senders.push(Route { client_id: client_id.clone(), sender });
                assert(self.routes() =~= before.push((client_id@, sender)));
                assert forall|a: int, b: int|
                    0 <= a < self.routes().len() && 0 <= b < self.routes().len() && a != b
                        implies #[trigger] self.routes()[a].0 != #[trigger] self.routes()[b].0 by {
                    if a == before.len() {
                        assert(!(before[b].0 == client_id@));
                    } else if b == before.len() {
                        assert(!(before[a].0 == client_id@));
                    }
                }
                true
            },
        }
    }

    /// Removes the route of `id`; an unknown id changes nothing.
    pub fn remove_route(&mut self, id: &str)
        requires
            old(self).wf(),
        ensures
            final(self).wf(),
            !final(self).has_route(id@),
            forall|other: Seq<char>|
                other != id@ ==> #[trigger] final(self).has_route(other) == old(self).has_route(other),
            forall|other: Seq<char>|
                other != id@ && old(self).has_route(other) ==> #[trigger] final(self).sender_of(other)
                    == old(self).sender_of(other),
            !old(self).has_route(id@) ==> final(self).routes() == old(self).routes(),
    {
        match self.position(id) {
            None => {},
            Some(k) => {
                let ghost before = self.routes();
                self.bots_senders.remove(k);
                assert(self.routes() =~= before.remove(k as int));
                assert forall|a: int| 0 <= a < self.routes().len() implies #[trigger] self.routes()[a] == before[
                    if a < k {
                        a
                    } else {
                        a + 1
                    }] by {}
                assert forall|a: int, b: int|
                    0 <= a < self.routes().len() && 0 <= b < self.routes().len() && a != b
                        implies #[trigger] self.routes()[a].0 != #[trigger] self.routes()[b].0 by {
                    let qa = if a < k { a } else { a + 1 };
                    let qb = if b < k { b } else { b + 1 };
                    assert(self.routes()[a] == before[qa]);
                    assert(self.routes()[b] == before[qb]);
                }
                proof {
                    if self.has_route(id@) {
                        let q = choose|q: int| 0 <= q < self.routes().len() && #[trigger] self.routes()[q].0 == id@;
                        let qq = if q < k { q } else { q + 1 };
                        assert(before[qq].0 == id@);
                    }
                }
                assert forall|other: Seq<char>|
                    #![trigger self.has_route(other)]
                    #![trigger self.sender_of(other)]
                    other != id@ implies (self.has_route(other)
                    == old(self).has_route(other) && (old(self).has_route(other) ==> self.sender_of(other)
                    == old(self).sender_of(other))) by {
                    if old(self).has_route(other) {
                        let q = choose|q: int| 0 <= q < before.len() && #[trigger] before[q].0 == other;
                        assert(q != k);
                        let nq = if q < k { q } else { q - 1 };
                        assert(self.routes()[nq].0 == other);
                        let c = choose|c: int| 0 <= c < self.routes().len() && #[trigger] self.routes()[c].0 == other;
                        let qc = if c < k { c } else { c + 1 };
                        assert(self.routes()[c] == before[qc]);
                        assert(before[qc].0 == other);
                        assert(old(self).routes() == before);
                        let co = choose|co: int| 0 <= co < old(self).routes().len() && #[trigger] old(self).routes()[co].0 == other;
                        assert(old(self).routes()[co].0 == old(self).routes()[qc].0);
                    }
                    if self.has_route(other) {
                        let c = choose|c: int| 0 <= c < self.routes().len() && #[trigger] self.routes()[c].0 == other;
                        let qc = if c < k { c } else { c + 1 };
                        assert(before[qc].0 == other);
                    }
                }
            },
        }
    }

    /// The mailbox of `id`'s bot.
    pub fn get_sender(&self, id: &str) -> (r: Option<&M>)
        requires
            self.wf(),
        ensures
            match r {
                Some(m) => self.has_route(id@) && *m == self.sender_of(id@),
                None => !self.has_route(id@),
            },
    {
        match self.position(id) {
            Some(k) => Some(&self.bots_senders[k].sender),
            None => None,
        }
    }
}

/// The message bus of a worker.
pub struct MessageBus<M> {
    pub router: MessageRouter<M>,
}

impl<M> MessageBus<M> {
    pub open spec fn wf(&self) -> bool {
        self.router.wf()
    }

    /// A bus with no routes.
    pub fn new() -> (r: Self)
        ensures
            r.router.routes().len() == 0,
            r.wf(),
    {
        MessageBus { router: MessageRouter::new() }
    }

    /// Registers the mailbox of a new bot; registering a client twice is a
    /// no-op. Tells whether the route was added.
    pub fn register(&mut self, client_id: &String, sender: M) -> (r: bool)
        requires
            old(self).wf(),
        ensures
            final(self).wf(),
            r == !old(self).router.has_route(client_id@),
            r ==> final(self).router.routes() == old(self).router.routes().push((client_id@, sender)),
            !r ==> final(self).router.routes() == old(self).router.routes(),
    {
        self.router.add_route(client_id, sender)
    }

    /// Drops the route of `id`.
    pub fn unregister(&mut self, id: &str)
        requires
            old(self).wf(),
        ensures
            final(self).wf(),
            !final(self).router.has_route(id@),
            forall|other: Seq<char>|
                other != id@ ==> #[trigger] final(self).router.has_route(other) == old(self).router.has_route(
                    other,
                ),
            forall|other: Seq<char>|
                other != id@ && old(self).router.has_route(other) ==> #[trigger] final(self).router.sender_of(
                    other,
                ) == old(self).router.sender_of(other),
    {
        self.router.remove_route(id)
    }

    /// The mailbox a message from client `from` is delivered to.
    pub fn send_from(&self, from: &str) -> (r: Option<&M>)
        requires
            self.wf(),
        ensures
            match r {
                Some(m) => self.router.has_route(from@) && *m == self.router.sender_of(from@),
                None => !self.router.has_route(from@),
            },
    {
        self.router.get_sender(from)
    }

    /// Decides what a message from the signaling server leads to. A connect
    /// of a client without a bot creates one, and of a client with a bot
    /// does nothing; an offer, answer or candidate goes to the bot of its
    /// `from` client, or is dropped when there is none; a disconnect drops
    /// the client's route and stops its bot; everything else is dropped.
    pub fn handle(&mut self, msg: SignalingMessage) -> (r: BusAction)
        requires
            old(self).wf(),
        ensures
            final(self).wf(),
            match msg@ {
                SignalingView::ClientConnect { client_id } => {
                    &&& final(self).router.routes() == old(self).router.routes()
                    &&& if old(self).router.has_route(client_id) {
                        r is Drop
                    } else {
                        r matches BusAction::CreateBot { client_id: c } && c@ == client_id
                    }
                },
                SignalingView::Offer { from, .. } | SignalingView::Answer { from, .. }
                | SignalingView::IceCandidate { from, .. } => {
                    &&& final(self).router.routes() == old(self).router.routes()
                    &&& if old(self).router.has_route(from) {
                        r matches BusAction::Deliver { client_id: c, msg: m } && c@ == from && m@ == msg@
                    } else {
                        r is Drop
                    }
                },
                SignalingView::ClientDisconnect { client_id } => {
                    &&& !final(self).router.has_route(client_id)
                    &&& forall|other: Seq<char>|
                        other != client_id ==> (#[trigger] final(self).router.has_route(other)
                            == old(self).router.has_route(other))
                    &&& r matches BusAction::StopBot { client_id: c } && c@ == client_id
                },
                _ => {
                    &&& final(self).router.routes() == old(self).router.routes()
                    &&& r is Drop
                },
            },
    {
        match msg {
            SignalingMessage::ClientConnect { client_id } => {
                if self.router.get_sender(client_id.as_str()).is_some() {
                    BusAction::Drop
                } else {
                    BusAction::CreateBot { client_id }
                }
            },
            SignalingMessage::ClientDisconnect { client_id } => {
                self.router.remove_route(client_id.as_str());
                BusAction::StopBot { client_id }
            },
            SignalingMessage::Offer { .. } | SignalingMessage::Answer { .. }
            | SignalingMessage::IceCandidate { .. } => {
                let from = match &msg {
                    SignalingMessage::Offer { from, .. } => from.clone(),
                    SignalingMessage::Answer { from, .. } => from.clone(),
                    SignalingMessage::IceCandidate { from, .. } => from.clone(),
                    _ => String::new(),
                };
                if self.router.get_sender(from.as_str()).is_some() {
                    BusAction::Deliver { client_id: from, msg }
                } else {
                    BusAction::Drop
                }
            },
            _ => BusAction::Drop,
        }
    }
}

} // verus!
