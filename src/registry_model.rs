//! Mathematical model of the peer registry: which workers and clients are
//! known, and which worker serves each client. Every operation of the
//! registry is a transition of this model.

use vstd::prelude::*;
use crate::ids::id_precedes;

verus! {

/// A worker as the registry sees it.
pub struct WorkerView<W> {
    pub server_id: Seq<char>,
    pub outbound: W,
    pub connected_users: nat,
    pub client_ids: Seq<Seq<char>>,
}

/// A client as the registry sees it.
pub struct ClientView<C> {
    pub client_id: Seq<char>,
    pub outbound: C,
    pub server_id: Option<Seq<char>>,
}

/// The whole registry: workers and clients in the order they registered.
pub struct RegistryView<W, C> {
    pub workers: Seq<WorkerView<W>>,
    pub clients: Seq<ClientView<C>>,
}

/// `ids` with every occurrence of `c` taken out.
pub open spec fn without(ids: Seq<Seq<char>>, c: Seq<char>) -> Seq<Seq<char>> {
    ids.filter(other_than(c))
}

/// Holds of every id but `c`.
pub open spec fn other_than(c: Seq<char>) -> spec_fn(Seq<char>) -> bool {
    |x: Seq<char>| x != c
}

/// `a` should be chosen over `b`: fewer connected users, or as many and a
/// smaller id.
pub open spec fn less_loaded<W>(a: WorkerView<W>, b: WorkerView<W>) -> bool {
    a.connected_users < b.connected_users || (a.connected_users == b.connected_users
        && id_precedes(a.server_id, b.server_id))
}

/// Position of the least loaded worker among the first `n`.
pub open spec fn least_loaded_upto<W>(ws: Seq<WorkerView<W>>, n: int) -> Option<int>
    decreases n,
{
    if n <= 0 {
        None
    } else {
        match least_loaded_upto(ws, n - 1) {
            None => Some(n - 1),
            Some(b) => if less_loaded(ws[n - 1], ws[b]) {
                Some(n - 1)
            } else {
                Some(b)
            },
        }
    }
}

/// Position of the least loaded worker, if there is any worker.
pub open spec fn least_loaded<W>(ws: Seq<WorkerView<W>>) -> Option<int> {
    least_loaded_upto(ws, ws.len() as int)
}

impl<W> WorkerView<W> {
    /// The worker once `c` is bound to it.
    pub open spec fn with_client(self, c: Seq<char>) -> WorkerView<W> {
        WorkerView {
            connected_users: self.connected_users + 1,
            client_ids: self.client_ids.push(c),
            ..self
        }
    }

    /// The worker once `c` is no longer bound to it.
    pub open spec fn without_client(self, c: Seq<char>) -> WorkerView<W> {
        WorkerView {
            connected_users: without(self.client_ids, c).len(),
            client_ids: without(self.client_ids, c),
            ..self
        }
    }
}

impl<C> ClientView<C> {
    /// The client with no worker.
    pub open spec fn unbound(self) -> ClientView<C> {
        ClientView { server_id: None, ..self }
    }
}

impl<W, C> RegistryView<W, C> {
    pub open spec fn has_worker(self, s: Seq<char>) -> bool {
        exists|i: int| 0 <= i < self.workers.len() && #[trigger] self.workers[i].server_id == s
    }

    pub open spec fn worker_index(self, s: Seq<char>) -> int {
        choose|i: int| 0 <= i < self.workers.len() && #[trigger] self.workers[i].server_id == s
    }

    pub open spec fn has_client(self, c: Seq<char>) -> bool {
        exists|j: int| 0 <= j < self.clients.len() && #[trigger] self.clients[j].client_id == c
    }

    pub open spec fn client_index(self, c: Seq<char>) -> int {
        choose|j: int| 0 <= j < self.clients.len() && #[trigger] self.clients[j].client_id == c
    }

    /// Client `c` is bound to worker `s`.
    pub open spec fn bound(self, c: Seq<char>, s: Seq<char>) -> bool {
        exists|j: int|
            0 <= j < self.clients.len() && #[trigger] self.clients[j].client_id == c
                && self.clients[j].server_id == Some(s)
    }

    /// Worker `s` lists `c` among its clients.
    pub open spec fn hosts(self, s: Seq<char>, c: Seq<char>) -> bool {
        exists|i: int|
            0 <= i < self.workers.len() && #[trigger] self.workers[i].server_id == s
                && self.workers[i].client_ids.contains(c)
    }

    /// Ids are unique, each worker's count is the number of its clients, and
    /// the binding recorded on clients agrees with the lists on workers.
    pub open spec fn wf(self) -> bool {
        &&& forall|i: int, k: int|
            0 <= i < self.workers.len() && 0 <= k < self.workers.len() && i != k
                ==> #[trigger] self.workers[i].server_id != #[trigger] self.workers[k].server_id
        &&& forall|j: int, k: int|
            0 <= j < self.clients.len() && 0 <= k < self.clients.len() && j != k
                ==> #[trigger] self.clients[j].client_id != #[trigger] self.clients[k].client_id
        &&& forall|i: int|
            0 <= i < self.workers.len() ==> #[trigger] self.workers[i].connected_users
                == self.workers[i].client_ids.len() && self.workers[i].client_ids.no_duplicates()
        &&& forall|c: Seq<char>, s: Seq<char>|
            #![trigger self.bound(c, s)]
            #![trigger self.hosts(s, c)]
            self.bound(c, s) <==> self.hosts(s, c)
    }

    /// Registering worker `s`; a known id leaves the registry as it is.
    pub open spec fn registering_worker(self, s: Seq<char>, outbound: W) -> Self {
        if self.has_worker(s) {
            self
        } else {
            RegistryView {
                workers: self.workers.push(
                    WorkerView { server_id: s, outbound, connected_users: 0, client_ids: seq![] },
                ),
                clients: self.clients,
            }
        }
    }

    /// Registering client `c`, unbound; a known id leaves the registry as it is.
    pub open spec fn registering_client(self, c: Seq<char>, outbound: C) -> Self {
        if self.has_client(c) {
            self
        } else {
            RegistryView {
                workers: self.workers,
                clients: self.clients.push(ClientView { client_id: c, outbound, server_id: None }),
            }
        }
    }

    /// The worker that assigning `c` answers with: the least loaded one for
    /// a known client that no worker serves yet; none for an unknown or an
    /// already bound client, or when there is no worker.
    pub open spec fn assignment(self, c: Seq<char>) -> Option<Seq<char>> {
        if !self.has_client(c) || self.clients[self.client_index(c)].server_id is Some {
            None
        } else {
            match least_loaded(self.workers) {
                None => None,
                Some(b) => Some(self.workers[b].server_id),
            }
        }
    }

    /// Assigning `c`: an unbound client is bound to the least loaded worker,
    /// whose count goes up by one.
    pub open spec fn assigning(self, c: Seq<char>) -> Self {
        if !self.has_client(c) {
            self
        } else {
            let j = self.client_index(c);
            if self.clients[j].server_id is Some {
                self
            } else {
                match least_loaded(self.workers) {
                    None => self,
                    Some(b) => RegistryView {
                        workers: self.workers.update(b, self.workers[b].with_client(c)),
                        clients: self.clients.update(
                            j,
                            ClientView { server_id: Some(self.workers[b].server_id), ..self.clients[j] },
                        ),
                    },
                }
            }
        }
    }

    /// Removing client `c`, and its place on the worker it was bound to.
    pub open spec fn removing_client(self, c: Seq<char>) -> Self {
        if !self.has_client(c) {
            self
        } else {
            let j = self.client_index(c);
            match self.clients[j].server_id {
                None => RegistryView { workers: self.workers, clients: self.clients.remove(j) },
                Some(s) => RegistryView {
                    workers: self.workers.map_values(
                        |w: WorkerView<W>|
                            if w.server_id == s {
                                w.without_client(c)
                            } else {
                                w
                            },
                    ),
                    clients: self.clients.remove(j),
                },
            }
        }
    }

    /// Removing worker `s`: every client bound to it stays, unbound.
    pub open spec fn removing_worker(self, s: Seq<char>) -> Self {
        if !self.has_worker(s) {
            self
        } else {
            RegistryView {
                workers: self.workers.remove(self.worker_index(s)),
                clients: self.clients.map_values(
                    |cv: ClientView<C>|
                        if cv.server_id == Some(s) {
                            cv.unbound()
                        } else {
                            cv
                        },
                ),
            }
        }
    }

    /// The clients that removing worker `s` leaves unbound.
    pub open spec fn orphans(self, s: Seq<char>) -> Seq<Seq<char>> {
        if self.has_worker(s) {
            self.workers[self.worker_index(s)].client_ids
        } else {
            seq![]
        }
    }
}

} // verus!
