//! The peer registry of the signaling server: workers, clients, the binding
//! of each client to one worker, and least-loaded assignment.
//!
//! Mailboxes are generic: the registry only hands out the mailbox a message
//! is meant for, and the session that holds it performs the send.

use vstd::prelude::*;
use crate::ids::{id_before, same_id, strs};
use crate::registry_laws::{
    lemma_assigning_wf, lemma_client_position, lemma_least_loaded, lemma_registering_client_wf,
    lemma_registering_worker_wf, lemma_removing_client_wf, lemma_removing_worker_wf,
    lemma_worker_position,
};
use crate::registry_model::{
    least_loaded, least_loaded_upto, less_loaded, other_than, without, ClientView, RegistryView,
    WorkerView,
};

verus! {

/// The id an optional string holds.
pub open spec fn opt_view(o: Option<String>) -> Option<Seq<char>> {
    match o {
        Some(s) => Some(s@),
        None => None,
    }
}

/// A registration that the registry refuses.
#[derive(Debug, Clone, Copy, PartialEq, Eq, Structural)]
pub enum RegistryError {
    /// The id is registered already.
    Duplicate,
}

/// Why a message cannot be routed.
#[derive(Debug, Clone, Copy, PartialEq, Eq, Structural)]
pub enum RouteError {
    NoSuchWorker,
    NoSuchClient,
    /// The client is known but no worker serves it.
    Unassigned,
    /// The receiving side has closed its mailbox.
    MailboxClosed,
}

/// A connected worker.
pub struct ServerNode<W> {
    pub server_id: String,
    /// Mailbox into the worker's connection.
    pub sig_tx: W,
    pub connected_users: usize,
    /// Clients bound to this worker.
    pub client_ids: Vec<String>,
}

/// A connected client.
pub struct ClientInfo<C> {
    pub client_id: String,
    /// Mailbox into the client's connection.
    pub client_tx: C,
    /// The worker serving this client.
    pub server_id: Option<String>,
}

impl<W> View for ServerNode<W> {
    type V = WorkerView<W>;

    open spec fn view(&self) -> WorkerView<W> {
        WorkerView {
            server_id: self.server_id@,
            outbound: self.sig_tx,
            connected_users: self.connected_users as nat,
            client_ids: strs(self.client_ids@),
        }
    }
}

impl<C> View for ClientInfo<C> {
    type V = ClientView<C>;

    open spec fn view(&self) -> ClientView<C> {
        ClientView {
            client_id: self.client_id@,
            outbound: self.client_tx,
            server_id: opt_view(self.server_id),
        }
    }
}

/// The registry of workers and clients.
pub struct ServerMngr<W, C> {
    server_nodes: Vec<ServerNode<W>>,
    client_info: Vec<ClientInfo<C>>,
}

impl<W, C> View for ServerMngr<W, C> {
    type V = RegistryView<W, C>;

    closed spec fn view(&self) -> RegistryView<W, C> {
        RegistryView {
            workers: self.server_nodes@.map_values(|n: ServerNode<W>| n@),
            clients: self.client_info@.map_values(|c: ClientInfo<C>| c@),
        }
    }
}

/// `ids` without `c`, in order.
fn remove_id(ids: &Vec<String>, c: &str) -> (r: Vec<String>)
    ensures
        strs(r@) == without(strs(ids@), c@),
{
    let mut r: Vec<String> = Vec::new();
    let mut i: usize = 0;
    while i < ids.len()
        invariant
            0 <= i <= ids@.len(),
            strs(r@) == without(strs(ids@).take(i as int), c@),
        decreases ids@.len() - i,
    {
        let ghost before = strs(ids@).take(i as int);
        let ghost x = ids@[i as int]@;
        proof {
            assert(strs(ids@).take(i + 1) == before.push(x));
            before.lemma_filter_push(x, other_than(c@));
        }
        if !same_id(ids[i].as_str(), c) {
            let ghost r0 = r@;
            let s = ids[i].clone();
            r.push(s);
            assert(strs(r@) =~= strs(r0).push(x));
        }
        i = i + 1;
    }
    assert(strs(ids@).take(ids@.len() as int) == strs(ids@));
    r
}

impl<W, C> ServerMngr<W, C> {
    /// Ids unique, counts exact, bindings consistent.
    pub open spec fn wf(&self) -> bool {
        self@.wf()
    }

    /// An empty registry.
    pub fn new() -> (r: Self)
        ensures
            r@.workers.len() == 0,
            r@.clients.len() == 0,
            r.wf(),
    {
        let r = ServerMngr { server_nodes: Vec::new(), client_info: Vec::new() };
        assert(r@.workers =~= Seq::<WorkerView<W>>::empty());
        assert(r@.clients =~= Seq::<ClientView<C>>::empty());
        r
    }

    fn worker_position(&self, server_id: &str) -> (r: Option<usize>)
        ensures
            match r {
                Some(i) => i < self@.workers.len() && self@.workers[i as int].server_id == server_id@,
                None => !self@.has_worker(server_id@),
            },
    {
        let mut i: usize = 0;
        while i < self.server_nodes.len()
            invariant
                0 <= i <= self.server_nodes@.len(),
                forall|k: int| 0 <= k < i ==> self@.workers[k].server_id != server_id@,
            decreases self.server_nodes@.len() - i,
        {
            if same_id(self.server_nodes[i].server_id.as_str(), server_id) {
                return Some(i);
            }
            i = i + 1;
        }
        None
    }

    fn client_position(&self, client_id: &str) -> (r: Option<usize>)
        ensures
            match r {
                Some(j) => j < self@.clients.len() && self@.clients[j as int].client_id == client_id@,
                None => !self@.has_client(client_id@),
            },
    {
        let mut j: usize = 0;
        while j < self.client_info.len()
            invariant
                0 <= j <= self.client_info@.len(),
                forall|k: int| 0 <= k < j ==> self@.clients[k].client_id != client_id@,
            decreases self.client_info@.len() - j,
        {
            if same_id(self.client_info[j].client_id.as_str(), client_id) {
                return Some(j);
            }
            j = j + 1;
        }
        None
    }

    /// Position of the worker with the fewest connected users; ties go to
    /// the smaller id.
    fn least_loaded_position(&self) -> (r: Option<usize>)
        ensures
            match r {
                Some(b) => b < self@.workers.len() && least_loaded(self@.workers) == Some(b as int),
                None => least_loaded(self@.workers) is None,
            },
    {
        let mut best: Option<usize> = None;
        let mut i: usize = 0;
        while i < self.server_nodes.len()
            invariant
                0 <= i <= self.server_nodes@.len(),
                match best {
                    Some(b) => b < i && least_loaded_upto(self@.workers, i as int) == Some(b as int),
                    None => least_loaded_upto(self@.workers, i as int) is None,
                },
            decreases self.server_nodes@.len() - i,
        {
            match best {
                None => {
                    best = Some(i);
                },
                Some(b) => {
                    let n = &self.server_nodes[i];
                    let m = &self.server_nodes[b];
                    assert(less_loaded(self@.workers[i as int], self@.workers[b as int]) == (
                    n.connected_users < m.connected_users || (n.connected_users
                        == m.connected_users && crate::ids::id_precedes(
                        n.server_id@,
                        m.server_id@,
                    ))));
                    if n.connected_users < m.connected_users || (n.connected_users
                        == m.connected_users && id_before(
                        n.server_id.as_str(),
                        m.server_id.as_str(),
                    )) {
                        best = Some(i);
                    }
                },
            }
            i = i + 1;
        }
        best
    }

    /// Adds a worker with no clients. A known id is refused and nothing
    /// changes.
    pub fn register_server(&mut self, server_id: String, sig_tx: W) -> (r: Result<(), RegistryError>)
        requires
            old(self).wf(),
        ensures
            final(self)@ == old(self)@.registering_worker(server_id@, sig_tx),
            r == Err::<(), RegistryError>(RegistryError::Duplicate) <==> old(self)@.has_worker(server_id@),
            r is Ok <==> !old(self)@.has_worker(server_id@),
            final(self).wf(),
    {
        proof {
            lemma_registering_worker_wf(self@, server_id@, sig_tx);
        }
        match self.worker_position(server_id.as_str()) {
            Some(_) => Err(RegistryError::Duplicate),
            None => {
                let node = ServerNode {
                    server_id,
                    sig_tx,
                    connected_users: 0,
                    client_ids: Vec::new(),
                };
                assert(node@.client_ids =~= Seq::<Seq<char>>::empty());
                let ghost v0 = self@;
                self.server_nodes.push(node);
                assert(self@.workers =~= v0.workers.push(node@));
                Ok(())
            },
        }
    }

    /// Adds a client bound to no worker. A known id is refused and nothing
    /// changes.
    pub fn register_client(&mut self, client_id: String, client_tx: C) -> (r: Result<(), RegistryError>)
        requires
            old(self).wf(),
        ensures
            final(self)@ == old(self)@.registering_client(client_id@, client_tx),
            r == Err::<(), RegistryError>(RegistryError::Duplicate) <==> old(self)@.has_client(client_id@),
            r is Ok <==> !old(self)@.has_client(client_id@),
            final(self).wf(),
    {
        proof {
            lemma_registering_client_wf(self@, client_id@, client_tx);
        }
        match self.client_position(client_id.as_str()) {
            Some(_) => Err(RegistryError::Duplicate),
            None => {
                let info = ClientInfo { client_id, client_tx, server_id: None };
                let ghost v0 = self@;
                self.client_info.push(info);
                assert(self@.clients =~= v0.clients.push(info@));
                Ok(())
            },
        }
    }

    /// The worker with the fewest connected users, ties broken by the
    /// smaller id; none when no worker is connected.
    pub fn select_server(&self) -> (r: Option<String>)
        ensures
            opt_view(r) == match least_loaded(self@.workers) {
                Some(b) => Some(self@.workers[b].server_id),
                None => None,
            },
    {
        match self.least_loaded_position() {
            Some(b) => Some(self.server_nodes[b].server_id.clone()),
            None => None,
        }
    }

    /// Binds a client to the least loaded worker and returns that worker's
    /// id. None, and no change, for an unknown client, for a client that a
    /// worker serves already, or when no worker is connected.
    pub fn assign_server_to_client(&mut self, client_id: &str) -> (r: Option<String>)
        requires
            old(self).wf(),
        ensures
            final(self)@ == old(self)@.assigning(client_id@),
            opt_view(r) == old(self)@.assignment(client_id@),
            final(self).wf(),
    {
        proof {
            lemma_assigning_wf(self@, client_id@);
        }
        let ghost v0 = self@;
        match self.client_position(client_id) {
            None => None,
            Some(j) => {
                proof {
                    lemma_client_position(v0, j as int);
                }
                if self.client_info[j].server_id.is_some() {
                    return None;
                }
                match self.least_loaded_position() {
                    None => None,
                    Some(b) => {
                        let sid = self.server_nodes[b].server_id.clone();
                        let cid = self.client_info[j].client_id.clone();
                        let ghost ids0 = self.server_nodes@[b as int].client_ids@;
                        self.server_nodes[b].client_ids.push(cid);
                        let n = self.server_nodes[b].client_ids.len();
                        self.server_nodes[b].connected_users = n;
                        self.client_info[j].server_id = Some(sid.clone());
                        proof {
                            lemma_least_loaded(v0.workers, v0.workers.len() as int);
                            assert(strs(self.server_nodes@[b as int].client_ids@) =~= strs(
                                ids0,
                            ).push(client_id@));
                            assert(self@.workers =~= v0.workers.update(
                                b as int,
                                v0.workers[b as int].with_client(client_id@),
                            ));
                            assert(self@.clients =~= v0.clients.update(
                                j as int,
                                ClientView {
                                    server_id: Some(v0.workers[b as int].server_id),
                                    ..v0.clients[j as int]
                                },
                            ));
                        }
                        Some(sid)
                    },
                }
            },
        }
    }

    /// The mailbox of worker `server_id`.
    pub fn forward_to_server(&self, server_id: &str) -> (r: Result<&W, RouteError>)
        requires
            self.wf(),
        ensures
            match r {
                Ok(o) => self@.has_worker(server_id@) && *o == self@.workers[self@.worker_index(
                    server_id@,
                )].outbound,
                Err(e) => !self@.has_worker(server_id@) && e == RouteError::NoSuchWorker,
            },
    {
        match self.worker_position(server_id) {
            Some(i) => {
                proof {
                    lemma_worker_position(self@, i as int);
                }
                Ok(&self.server_nodes[i].sig_tx)
            },
            None => Err(RouteError::NoSuchWorker),
        }
    }

    /// The mailbox of client `client_id`.
    pub fn forward_to_client(&self, client_id: &str) -> (r: Result<&C, RouteError>)
        requires
            self.wf(),
        ensures
            match r {
                Ok(o) => self@.has_client(client_id@) && *o == self@.clients[self@.client_index(
                    client_id@,
                )].outbound,
                Err(e) => !self@.has_client(client_id@) && e == RouteError::NoSuchClient,
            },
    {
        match self.client_position(client_id) {
            Some(j) => {
                proof {
                    lemma_client_position(self@, j as int);
                }
                Ok(&self.client_info[j].client_tx)
            },
            None => Err(RouteError::NoSuchClient),
        }
    }

    /// The mailbox of the worker serving client `client_id`.
    pub fn forward_to_server_by_client(&self, client_id: &str) -> (r: Result<&W, RouteError>)
        requires
            self.wf(),
        ensures
            !self@.has_client(client_id@) ==> r == Err::<&W, RouteError>(RouteError::NoSuchClient),
            self@.has_client(client_id@) ==> match self@.clients[self@.client_index(
                client_id@,
            )].server_id {
                None => r == Err::<&W, RouteError>(RouteError::Unassigned),
                Some(s) => self@.has_worker(s) && r is Ok && *r->Ok_0
                    == self@.workers[self@.worker_index(s)].outbound,
            },
    {
        match self.client_position(client_id) {
            None => Err(RouteError::NoSuchClient),
            Some(j) => {
                proof {
                    lemma_client_position(self@, j as int);
                }
                match &self.client_info[j].server_id {
                    None => Err(RouteError::Unassigned),
                    Some(s) => {
                        proof {
                            assert(self@.bound(client_id@, s@));
                            assert(self@.hosts(s@, client_id@));
                        }
                        self.forward_to_server(s.as_str())
                    },
                }
            },
        }
    }

    /// How many clients worker `server_id` serves, if it is connected.
    pub fn connected_users(&self, server_id: &str) -> (r: Option<usize>)
        requires
            self.wf(),
        ensures
            match r {
                Some(n) => self@.has_worker(server_id@) && n == self@.workers[self@.worker_index(
                    server_id@,
                )].connected_users,
                None => !self@.has_worker(server_id@),
            },
    {
        match self.worker_position(server_id) {
            Some(i) => {
                proof {
                    lemma_worker_position(self@, i as int);
                }
                Some(self.server_nodes[i].connected_users)
            },
            None => None,
        }
    }

    /// Number of connected workers.
    pub fn worker_count(&self) -> (r: usize)
        ensures
            r == self@.workers.len(),
    {
        self.server_nodes.len()
    }

    /// Number of connected clients.
    pub fn client_count(&self) -> (r: usize)
        ensures
            r == self@.clients.len(),
    {
        self.client_info.len()
    }

    /// The worker serving client `client_id`, if any.
    pub fn get_client_server(&self, client_id: &str) -> (r: Option<String>)
        requires
            self.wf(),
        ensures
            opt_view(r) == if self@.has_client(client_id@) {
                self@.clients[self@.client_index(client_id@)].server_id
            } else {
                None
            },
    {
        match self.client_position(client_id) {
            None => None,
            Some(j) => {
                proof {
                    lemma_client_position(self@, j as int);
                }
                match &self.client_info[j].server_id {
                    None => None,
                    Some(s) => Some(s.clone()),
                }
            },
        }
    }

    /// Removes a client and its place on the worker serving it. An unknown
    /// id changes nothing.
    pub fn remove_client(&mut self, client_id: &str)
        requires
            old(self).wf(),
        ensures
            final(self)@ == old(self)@.removing_client(client_id@),
            final(self).wf(),
    {
        proof {
            lemma_removing_client_wf(self@, client_id@);
        }
        let ghost v0 = self@;
        match self.client_position(client_id) {
            None => {},
            Some(j) => {
                proof {
                    lemma_client_position(v0, j as int);
                }
                let info = self.client_info.remove(j);
                assert(self@.clients =~= v0.clients.remove(j as int));
                match info.server_id {
                    None => {},
                    Some(s) => {
                        match self.worker_position(s.as_str()) {
                            None => {
                                assert(self@.workers =~= v0.workers.map_values(
                                    |w: WorkerView<W>|
                                        if w.server_id == s@ {
                                            w.without_client(client_id@)
                                        } else {
                                            w
                                        },
                                )) by {
                                    assert forall|k: int| 0 <= k < v0.workers.len() implies v0.workers[k].server_id != s@ by {
                                        if v0.workers[k].server_id == s@ {
                                            assert(self@.workers[k].server_id == s@);
                                        }
                                    }
                                }
                            },
                            Some(i) => {
                                let ids = remove_id(&self.server_nodes[i].client_ids, client_id);
                                self.server_nodes[i].client_ids = ids;
                                let n = self.server_nodes[i].client_ids.len();
                                self.server_nodes[i].connected_users = n;
                                proof {
                                    lemma_worker_position(v0, i as int);
                                    assert(self@.workers =~= v0.workers.map_values(
                                        |w: WorkerView<W>|
                                            if w.server_id == s@ {
                                                w.without_client(client_id@)
                                            } else {
                                                w
                                            },
                                    )) by {
                                        assert forall|k: int| 0 <= k < v0.workers.len() && k != i implies v0.workers[k].server_id != s@ by {}
                                    }
                                }
                            },
                        }
                    },
                }
            },
        }
    }

    /// Removes a worker. Every client bound to it stays registered, unbound;
    /// their ids are returned so that they can be told. An unknown id
    /// changes nothing.
    pub fn remove_server(&mut self, server_id: &str) -> (r: Vec<String>)
        requires
            old(self).wf(),
        ensures
            final(self)@ == old(self)@.removing_worker(server_id@),
            strs(r@) == old(self)@.orphans(server_id@),
            final(self).wf(),
    {
        proof {
            lemma_removing_worker_wf(self@, server_id@);
        }
        let ghost v0 = self@;
        match self.worker_position(server_id) {
            None => Vec::new(),
            Some(i) => {
                proof {
                    lemma_worker_position(v0, i as int);
                }
                let node = self.server_nodes.remove(i);
                assert(self@.workers =~= v0.workers.remove(i as int));
                let ghost ws = self.server_nodes@;
                let mut j: usize = 0;
                while j < self.client_info.len()
                    invariant
                        self.server_nodes@ == ws,
                        0 <= j <= self.client_info@.len(),
                        self@.clients.len() == v0.clients.len(),
                        forall|k: int|
                            0 <= k < j ==> #[trigger] self@.clients[k] == (if v0.clients[k].server_id
                                == Some(server_id@) {
                                v0.clients[k].unbound()
                            } else {
                                v0.clients[k]
                            }),
                        forall|k: int| j <= k < self@.clients.len() ==> #[trigger] self@.clients[k] == v0.clients[k],
                    decreases self.client_info@.len() - j,
                {
                    let here = match &self.client_info[j].server_id {
                        Some(x) => same_id(x.as_str(), server_id),
                        None => false,
                    };
                    let ghost pre = self.client_info@;
                    let ghost prev = self@;
                    assert(self@.clients[j as int] == v0.clients[j as int]);
                    assert(pre[j as int]@ == v0.clients[j as int]);
                    assert(here == (v0.clients[j as int].server_id == Some(server_id@)));
                    if here {
                        self.client_info[j].server_id = None;
                    }
                    proof {
                        assert forall|k: int| 0 <= k < pre.len() && k != j implies #[trigger] self@.clients[k]
                            == prev.clients[k] by {
                            assert(self.client_info@[k] == pre[k]);
                        }
                        assert(self@.clients[j as int] == (if v0.clients[j as int].server_id == Some(
                            server_id@,
                        ) {
                            v0.clients[j as int].unbound()
                        } else {
                            v0.clients[j as int]
                        }));
                    }
                    j = j + 1;
                }
                assert(self@.clients =~= v0.clients.map_values(
                    |cv: ClientView<C>|
                        if cv.server_id == Some(server_id@) {
                            cv.unbound()
                        } else {
                            cv
                        },
                ));
                node.client_ids
            },
        }
    }
}

} // verus!
