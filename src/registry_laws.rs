//! What holds of the registry model after every sequence of operations, and
//! the laws that relate its operations.

use vstd::prelude::*;
use crate::registry_model::{least_loaded, least_loaded_upto, other_than, without, RegistryView, WorkerView};

verus! {

broadcast use vstd::seq_lib::group_filter_ensures;

/// Taking `c` out of a list keeps exactly the other members, and keeps a
/// list free of duplicates.
pub proof fn lemma_without(ids: Seq<Seq<char>>, c: Seq<char>)
    ensures
        forall|x: Seq<char>| #[trigger] without(ids, c).contains(x) <==> (ids.contains(x) && x != c),
        ids.no_duplicates() ==> without(ids, c).no_duplicates(),
    decreases ids.len(),
{
    let p = other_than(c);
    assert forall|x: Seq<char>| #[trigger] without(ids, c).contains(x) <==> (ids.contains(x) && x != c) by {
        if without(ids, c).contains(x) {
            ids.lemma_filter_contains_rev(p, x);
            let k = choose|k: int| 0 <= k < without(ids, c).len() && without(ids, c)[k] == x;
            ids.lemma_filter_pred(p, k);
        }
        if ids.contains(x) && x != c {
            let k = choose|k: int| 0 <= k < ids.len() && ids[k] == x;
            ids.lemma_filter_contains(p, k);
        }
    }
    if ids.len() > 0 && ids.no_duplicates() {
        reveal(Seq::filter);
        let rest = ids.drop_last();
        assert(rest.no_duplicates());
        lemma_without(rest, c);
        if ids.last() != c {
            assert(!rest.contains(ids.last()));
            assert(!without(rest, c).contains(ids.last()));
            assert(without(ids, c) == without(rest, c).push(ids.last()));
        } else {
            assert(without(ids, c) == without(rest, c));
        }
    }
}

/// With unique ids, the position of a worker is the one its id leads to.
pub proof fn lemma_worker_position<W, C>(v: RegistryView<W, C>, i: int)
    requires
        v.wf(),
        0 <= i < v.workers.len(),
    ensures
        v.has_worker(v.workers[i].server_id),
        v.worker_index(v.workers[i].server_id) == i,
{
    let s = v.workers[i].server_id;
    assert(v.has_worker(s));
    let k = v.worker_index(s);
    assert(v.workers[k].server_id == s);
}

/// With unique ids, the position of a client is the one its id leads to.
pub proof fn lemma_client_position<W, C>(v: RegistryView<W, C>, j: int)
    requires
        v.wf(),
        0 <= j < v.clients.len(),
    ensures
        v.has_client(v.clients[j].client_id),
        v.client_index(v.clients[j].client_id) == j,
{
    let c = v.clients[j].client_id;
    assert(v.has_client(c));
    let k = v.client_index(c);
    assert(v.clients[k].client_id == c);
}

/// Registering a worker keeps the registry well formed.
pub proof fn lemma_registering_worker_wf<W, C>(v: RegistryView<W, C>, s: Seq<char>, o: W)
    requires
        v.wf(),
    ensures
        v.registering_worker(s, o).wf(),
{
    if !v.has_worker(s) {
        let n = v.registering_worker(s, o);
        let len = v.workers.len() as int;
        assert forall|c: Seq<char>, t: Seq<char>| #[trigger] n.bound(c, t) <==> #[trigger] n.hosts(t, c) by {
            if n.hosts(t, c) {
                let i = choose|i: int|
                    0 <= i < n.workers.len() && #[trigger] n.workers[i].server_id == t
                        && n.workers[i].client_ids.contains(c);
                if i == len {
                    assert(n.workers[i].client_ids.len() == 0);
                } else {
                    assert(n.workers[i] == v.workers[i]);
                    assert(v.hosts(t, c));
                }
            }
            if v.hosts(t, c) {
                let i = choose|i: int|
                    0 <= i < v.workers.len() && #[trigger] v.workers[i].server_id == t
                        && v.workers[i].client_ids.contains(c);
                assert(n.workers[i] == v.workers[i]);
                assert(n.hosts(t, c));
            }
            assert(n.bound(c, t) == v.bound(c, t));
        }
        assert forall|i: int, k: int|
            0 <= i < n.workers.len() && 0 <= k < n.workers.len() && i != k
                implies #[trigger] n.workers[i].server_id != #[trigger] n.workers[k].server_id by {
            if i == len {
                assert(v.workers[k].server_id == n.workers[k].server_id);
            } else if k == len {
                assert(v.workers[i].server_id == n.workers[i].server_id);
            }
        }
        assert(n.workers[len].client_ids.no_duplicates());
    }
}

/// Registering a client keeps the registry well formed.
pub proof fn lemma_registering_client_wf<W, C>(v: RegistryView<W, C>, c: Seq<char>, o: C)
    requires
        v.wf(),
    ensures
        v.registering_client(c, o).wf(),
{
    if !v.has_client(c) {
        let n = v.registering_client(c, o);
        let len = v.clients.len() as int;
        assert forall|x: Seq<char>, t: Seq<char>| #[trigger] n.bound(x, t) <==> #[trigger] n.hosts(t, x) by {
            if n.bound(x, t) {
                let j = choose|j: int|
                    0 <= j < n.clients.len() && #[trigger] n.clients[j].client_id == x
                        && n.clients[j].server_id == Some(t);
                assert(j != len);
                assert(n.clients[j] == v.clients[j]);
                assert(v.bound(x, t));
            }
            if v.bound(x, t) {
                let j = choose|j: int|
                    0 <= j < v.clients.len() && #[trigger] v.clients[j].client_id == x
                        && v.clients[j].server_id == Some(t);
                assert(n.clients[j] == v.clients[j]);
                assert(n.bound(x, t));
            }
            assert(n.workers == v.workers);
            assert(n.hosts(t, x) == v.hosts(t, x));
        }
        assert forall|j: int, k: int|
            0 <= j < n.clients.len() && 0 <= k < n.clients.len() && j != k
                implies #[trigger] n.clients[j].client_id != #[trigger] n.clients[k].client_id by {
            if j == len {
                assert(v.clients[k].client_id == n.clients[k].client_id);
            } else if k == len {
                assert(v.clients[j].client_id == n.clients[j].client_id);
            }
        }
    }
}

/// The least loaded worker has no more users than any other.
pub proof fn lemma_least_loaded<W>(ws: Seq<WorkerView<W>>, n: int)
    requires
        0 <= n <= ws.len(),
    ensures
        n == 0 <==> least_loaded_upto(ws, n) is None,
        least_loaded_upto(ws, n) matches Some(b) ==> 0 <= b < n && forall|k: int|
            0 <= k < n ==> ws[b].connected_users <= #[trigger] ws[k].connected_users,
    decreases n,
{
    if n > 0 {
        lemma_least_loaded(ws, n - 1);
    }
}

/// Assigning keeps the registry well formed.
#[verifier::rlimit(30)]
pub proof fn lemma_assigning_wf<W, C>(v: RegistryView<W, C>, c: Seq<char>)
    requires
        v.wf(),
    ensures
        v.assigning(c).wf(),
{
    if v.has_client(c) {
        let j = v.client_index(c);
        if v.clients[j].server_id is None {
            lemma_least_loaded(v.workers, v.workers.len() as int);
            if let Some(b) = least_loaded(v.workers) {
                let n = v.assigning(c);
                let sb = v.workers[b].server_id;
                // no worker lists `c` yet
                assert forall|t: Seq<char>| !v.bound(c, t) by {
                    if v.bound(c, t) {
                        let k = choose|k: int|
                            0 <= k < v.clients.len() && #[trigger] v.clients[k].client_id == c
                                && v.clients[k].server_id == Some(t);
                        assert(v.clients[j].client_id == c);
                    }
                }
                assert(!v.hosts(sb, c));
                assert(!v.workers[b].client_ids.contains(c));
                assert forall|x: Seq<char>, t: Seq<char>| #[trigger] n.bound(x, t) <==> #[trigger] n.hosts(t, x) by {
                    if n.bound(x, t) {
                        let k = choose|k: int|
                            0 <= k < n.clients.len() && #[trigger] n.clients[k].client_id == x
                                && n.clients[k].server_id == Some(t);
                        if k == j {
                            assert(n.workers[b].client_ids.last() == c);
                            assert(n.workers[b].client_ids.contains(c));
                            assert(n.workers[b].server_id == sb);
                            assert(n.hosts(t, x));
                        } else {
                            assert(v.clients[k] == n.clients[k]);
                            assert(v.bound(x, t));
                            assert(v.hosts(t, x));
                            let i = choose|i: int|
                                0 <= i < v.workers.len() && #[trigger] v.workers[i].server_id == t
                                    && v.workers[i].client_ids.contains(x);
                            if i == b {
                                let q = choose|q: int|
                                    0 <= q < v.workers[b].client_ids.len()
                                        && v.workers[b].client_ids[q] == x;
                                assert(n.workers[b].client_ids[q] == x);
                            }
                            assert(n.workers[i].server_id == t);
                            assert(n.workers[i].client_ids.contains(x));
                        }
                    }
                    if n.hosts(t, x) {
                        let i = choose|i: int|
                            0 <= i < n.workers.len() && #[trigger] n.workers[i].server_id == t
                                && n.workers[i].client_ids.contains(x);
                        if i == b {
                            let q = choose|q: int|
                                0 <= q < n.workers[b].client_ids.len()
                                    && n.workers[b].client_ids[q] == x;
                            if q == v.workers[b].client_ids.len() {
                                assert(x == c && t == sb);
                                assert(n.clients[j].client_id == c);
                            } else {
                                assert(v.workers[b].client_ids[q] == x);
                                assert(v.hosts(t, x));
                                assert(v.bound(x, t));
                                let k = choose|k: int|
                                    0 <= k < v.clients.len() && #[trigger] v.clients[k].client_id
                                        == x && v.clients[k].server_id == Some(t);
                                assert(k != j);
                                assert(n.clients[k] == v.clients[k]);
                            }
                        } else {
                            assert(v.workers[i] == n.workers[i]);
                            assert(v.hosts(t, x));
                            assert(v.bound(x, t));
                            let k = choose|k: int|
                                0 <= k < v.clients.len() && #[trigger] v.clients[k].client_id == x
                                    && v.clients[k].server_id == Some(t);
                            assert(k != j);
                            assert(n.clients[k] == v.clients[k]);
                        }
                    }
                }
                assert forall|i: int, k: int|
                    0 <= i < n.workers.len() && 0 <= k < n.workers.len() && i != k
                        implies #[trigger] n.workers[i].server_id != #[trigger] n.workers[k].server_id by {
                    assert(n.workers[i].server_id == v.workers[i].server_id);
                    assert(n.workers[k].server_id == v.workers[k].server_id);
                }
                assert forall|i: int, k: int|
                    0 <= i < n.clients.len() && 0 <= k < n.clients.len() && i != k
                        implies #[trigger] n.clients[i].client_id != #[trigger] n.clients[k].client_id by {
                    assert(n.clients[i].client_id == v.clients[i].client_id);
                    assert(n.clients[k].client_id == v.clients[k].client_id);
                }
                assert forall|i: int| 0 <= i < n.workers.len() implies #[trigger] n.workers[i].connected_users
                    == n.workers[i].client_ids.len() && n.workers[i].client_ids.no_duplicates() by {
                    if i == b {
                        let ids = v.workers[b].client_ids;
                        assert forall|p: int, q: int| 0 <= p < q < ids.push(c).len() implies ids.push(c)[p]
                            != ids.push(c)[q] by {
                            if q == ids.len() {
                                assert(ids.contains(ids[p]));
                            }
                        }
                    }
                }
            }
        }
    }
}

/// Removing a client keeps the registry well formed.
#[verifier::rlimit(30)]
pub proof fn lemma_removing_client_wf<W, C>(v: RegistryView<W, C>, c: Seq<char>)
    requires
        v.wf(),
    ensures
        v.removing_client(c).wf(),
{
    if v.has_client(c) {
        let j = v.client_index(c);
        let n = v.removing_client(c);
        assert forall|k: int| 0 <= k < n.clients.len() implies #[trigger] n.clients[k] == v.clients[
            if k < j {
                k
            } else {
                k + 1
            }] by {}
        assert forall|x: Seq<char>, t: Seq<char>| #[trigger] n.bound(x, t) <==> (v.bound(x, t) && x != c) by {
            if n.bound(x, t) {
                let k = choose|k: int|
                    0 <= k < n.clients.len() && #[trigger] n.clients[k].client_id == x
                        && n.clients[k].server_id == Some(t);
                let q = if k < j { k } else { k + 1 };
                assert(v.clients[q] == n.clients[k]);
                assert(v.bound(x, t));
            }
            if v.bound(x, t) && x != c {
                let k = choose|k: int|
                    0 <= k < v.clients.len() && #[trigger] v.clients[k].client_id == x
                        && v.clients[k].server_id == Some(t);
                let q = if k < j { k } else { k - 1 };
                assert(n.clients[q] == v.clients[k]);
                assert(n.bound(x, t));
            }
        }
        assert forall|j1: int, k: int|
            0 <= j1 < n.clients.len() && 0 <= k < n.clients.len() && j1 != k
                implies #[trigger] n.clients[j1].client_id != #[trigger] n.clients[k].client_id by {
            let q1 = if j1 < j { j1 } else { j1 + 1 };
            let q2 = if k < j { k } else { k + 1 };
            assert(n.clients[j1] == v.clients[q1]);
            assert(n.clients[k] == v.clients[q2]);
        }
        match v.clients[j].server_id {
            None => {
                assert forall|t: Seq<char>| !v.hosts(t, c) by {
                    if v.hosts(t, c) {
                        assert(v.bound(c, t));
                        let k = choose|k: int|
                            0 <= k < v.clients.len() && #[trigger] v.clients[k].client_id == c
                                && v.clients[k].server_id == Some(t);
                        assert(v.clients[j].client_id == c);
                    }
                }
                assert(n.workers == v.workers);
                assert forall|x: Seq<char>, t: Seq<char>| #[trigger] n.bound(x, t) <==> #[trigger] n.hosts(t, x) by {
                    assert(n.hosts(t, x) == v.hosts(t, x));
                }
            },
            Some(s) => {
                assert forall|i: int| 0 <= i < n.workers.len() implies #[trigger] n.workers[i]
                    == (if v.workers[i].server_id == s {
                    v.workers[i].without_client(c)
                } else {
                    v.workers[i]
                }) by {}
                assert forall|t: Seq<char>| v.hosts(t, c) implies t == s by {
                    assert(v.bound(c, t));
                    let k = choose|k: int|
                        0 <= k < v.clients.len() && #[trigger] v.clients[k].client_id == c
                            && v.clients[k].server_id == Some(t);
                    assert(v.clients[j].client_id == c);
                }
                assert forall|x: Seq<char>, t: Seq<char>| #[trigger] n.hosts(t, x) <==> (v.hosts(t, x) && x != c) by {
                    if n.hosts(t, x) {
                        let i = choose|i: int|
                            0 <= i < n.workers.len() && #[trigger] n.workers[i].server_id == t
                                && n.workers[i].client_ids.contains(x);
                        lemma_without(v.workers[i].client_ids, c);
                        assert(v.workers[i].server_id == t);
                        if v.workers[i].server_id != s {
                            assert(v.hosts(t, x));
                        } else {
                            assert(v.workers[i].client_ids.contains(x));
                            assert(v.hosts(t, x));
                        }
                    }
                    if v.hosts(t, x) && x != c {
                        let i = choose|i: int|
                            0 <= i < v.workers.len() && #[trigger] v.workers[i].server_id == t
                                && v.workers[i].client_ids.contains(x);
                        lemma_without(v.workers[i].client_ids, c);
                        assert(n.workers[i].server_id == t);
                        assert(n.workers[i].client_ids.contains(x));
                    }
                }
                assert forall|x: Seq<char>, t: Seq<char>| #[trigger] n.bound(x, t) <==> #[trigger] n.hosts(t, x) by {
                    assert(n.bound(x, t) <==> (v.bound(x, t) && x != c));
                    assert(n.hosts(t, x) <==> (v.hosts(t, x) && x != c));
                }
                assert forall|i: int, k: int|
                    0 <= i < n.workers.len() && 0 <= k < n.workers.len() && i != k
                        implies #[trigger] n.workers[i].server_id != #[trigger] n.workers[k].server_id by {
                    assert(n.workers[i].server_id == v.workers[i].server_id);
                    assert(n.workers[k].server_id == v.workers[k].server_id);
                }
                assert forall|i: int| 0 <= i < n.workers.len() implies #[trigger] n.workers[i].connected_users
                    == n.workers[i].client_ids.len() && n.workers[i].client_ids.no_duplicates() by {
                    lemma_without(v.workers[i].client_ids, c);
                }
            },
        }
    }
}

/// Removing a worker keeps the registry well formed.
#[verifier::rlimit(30)]
pub proof fn lemma_removing_worker_wf<W, C>(v: RegistryView<W, C>, s: Seq<char>)
    requires
        v.wf(),
    ensures
        v.removing_worker(s).wf(),
{
    if v.has_worker(s) {
        let i0 = v.worker_index(s);
        let n = v.removing_worker(s);
        assert forall|k: int| 0 <= k < n.workers.len() implies #[trigger] n.workers[k] == v.workers[
            if k < i0 {
                k
            } else {
                k + 1
            }] by {}
        assert forall|k: int| 0 <= k < n.clients.len() implies #[trigger] n.clients[k] == (if v.clients[k].server_id
            == Some(s) {
            v.clients[k].unbound()
        } else {
            v.clients[k]
        }) by {}
        assert forall|x: Seq<char>, t: Seq<char>| #[trigger] n.bound(x, t) <==> (v.bound(x, t) && t != s) by {
            if n.bound(x, t) {
                let k = choose|k: int|
                    0 <= k < n.clients.len() && #[trigger] n.clients[k].client_id == x
                        && n.clients[k].server_id == Some(t);
                assert(v.clients[k].client_id == x);
                assert(v.bound(x, t));
            }
            if v.bound(x, t) && t != s {
                let k = choose|k: int|
                    0 <= k < v.clients.len() && #[trigger] v.clients[k].client_id == x
                        && v.clients[k].server_id == Some(t);
                assert(n.clients[k] == v.clients[k]);
                assert(n.bound(x, t));
            }
        }
        assert forall|x: Seq<char>, t: Seq<char>| #[trigger] n.hosts(t, x) <==> (v.hosts(t, x) && t != s) by {
            if n.hosts(t, x) {
                let i = choose|i: int|
                    0 <= i < n.workers.len() && #[trigger] n.workers[i].server_id == t
                        && n.workers[i].client_ids.contains(x);
                let q = if i < i0 { i } else { i + 1 };
                assert(v.workers[q] == n.workers[i]);
                assert(v.workers[i0].server_id == s);
                assert(v.hosts(t, x));
            }
            if v.hosts(t, x) && t != s {
                let i = choose|i: int|
                    0 <= i < v.workers.len() && #[trigger] v.workers[i].server_id == t
                        && v.workers[i].client_ids.contains(x);
                assert(i != i0);
                let q = if i < i0 { i } else { i - 1 };
                assert(n.workers[q] == v.workers[i]);
                assert(n.hosts(t, x));
            }
        }
        assert forall|x: Seq<char>, t: Seq<char>| #[trigger] n.bound(x, t) <==> #[trigger] n.hosts(t, x) by {
            assert(n.bound(x, t) <==> (v.bound(x, t) && t != s));
            assert(n.hosts(t, x) <==> (v.hosts(t, x) && t != s));
        }
        assert forall|i: int, k: int|
            0 <= i < n.workers.len() && 0 <= k < n.workers.len() && i != k
                implies #[trigger] n.workers[i].server_id != #[trigger] n.workers[k].server_id by {
            let q1 = if i < i0 { i } else { i + 1 };
            let q2 = if k < i0 { k } else { k + 1 };
            assert(n.workers[i] == v.workers[q1]);
            assert(n.workers[k] == v.workers[q2]);
        }
        assert forall|j: int, k: int|
            0 <= j < n.clients.len() && 0 <= k < n.clients.len() && j != k
                implies #[trigger] n.clients[j].client_id != #[trigger] n.clients[k].client_id by {
            assert(n.clients[j].client_id == v.clients[j].client_id);
            assert(n.clients[k].client_id == v.clients[k].client_id);
        }
        assert forall|i: int| 0 <= i < n.workers.len() implies #[trigger] n.workers[i].connected_users
            == n.workers[i].client_ids.len() && n.workers[i].client_ids.no_duplicates() by {
            let q = if i < i0 { i } else { i + 1 };
            assert(n.workers[i] == v.workers[q]);
            assert(v.workers[q].connected_users == v.workers[q].client_ids.len());
            assert(v.workers[q].client_ids.no_duplicates());
        }
    }
}

/// A client is bound to a worker exactly when that worker lists it among
/// its clients.
pub proof fn binding_agrees<W, C>(v: RegistryView<W, C>, c: Seq<char>, s: Seq<char>)
    requires
        v.wf(),
    ensures
        v.bound(c, s) <==> v.hosts(s, c),
{
}

/// Every worker's count of connected users is the number of clients it
/// lists.
pub proof fn count_matches_clients<W, C>(v: RegistryView<W, C>, i: int)
    requires
        v.wf(),
        0 <= i < v.workers.len(),
    ensures
        v.workers[i].connected_users == v.workers[i].client_ids.len(),
{
}

/// Once a worker is removed, no client is bound to it.
pub proof fn removed_worker_has_no_clients<W, C>(v: RegistryView<W, C>, s: Seq<char>)
    requires
        v.wf(),
    ensures
        !v.removing_worker(s).has_worker(s),
        forall|c: Seq<char>| !(#[trigger] v.removing_worker(s).bound(c, s)),
{
    lemma_removing_worker_wf(v, s);
    let n = v.removing_worker(s);
    if v.has_worker(s) {
        let i0 = v.worker_index(s);
        if n.has_worker(s) {
            let k = choose|k: int| 0 <= k < n.workers.len() && #[trigger] n.workers[k].server_id == s;
            let q = if k < i0 { k } else { k + 1 };
            assert(n.workers[k] == v.workers[q]);
        }
    }
    assert forall|c: Seq<char>| !(#[trigger] n.bound(c, s)) by {
        if n.bound(c, s) {
            assert(n.hosts(s, c));
        }
    }
}

/// The worker that an assignment returns has no more users than any
/// other; after the assignment it exceeds none by more than one.
pub proof fn assignment_is_balanced<W, C>(v: RegistryView<W, C>, c: Seq<char>)
    requires
        v.wf(),
    ensures
        v.assignment(c) matches Some(s) ==> {
            let after = v.assigning(c);
            &&& v.has_worker(s)
            &&& forall|k: int|
                0 <= k < v.workers.len() ==> v.workers[v.worker_index(s)].connected_users
                    <= #[trigger] v.workers[k].connected_users
            &&& after.has_worker(s)
            &&& forall|k: int|
                0 <= k < after.workers.len() ==> after.workers[after.worker_index(s)].connected_users
                    <= #[trigger] after.workers[k].connected_users + 1
        },
{
    lemma_least_loaded(v.workers, v.workers.len() as int);
    lemma_assigning_wf(v, c);
    if v.assignment(c) is None {
        return;
    }
    if let Some(b) = least_loaded(v.workers) {
        let after = v.assigning(c);
        lemma_worker_position(v, b);
        assert(after.workers[b].server_id == v.workers[b].server_id);
        lemma_worker_position(after, b);
        assert forall|k: int| 0 <= k < after.workers.len() implies after.workers[b].connected_users
            <= #[trigger] after.workers[k].connected_users + 1 by {
            if k != b {
                assert(after.workers[k] == v.workers[k]);
            }
        }
    }
}

/// Registering the same client twice leaves the registry as registering it
/// once does.
pub proof fn register_client_twice<W, C>(v: RegistryView<W, C>, c: Seq<char>, first: C, second: C)
    ensures
        v.registering_client(c, first).registering_client(c, second) == v.registering_client(
            c,
            first,
        ),
{
    let once = v.registering_client(c, first);
    if !v.has_client(c) {
        assert(once.clients[v.clients.len() as int].client_id == c);
    } else {
        let j = choose|j: int| 0 <= j < v.clients.len() && #[trigger] v.clients[j].client_id == c;
        assert(once.clients[j].client_id == c);
    }
}

/// Registering the same worker twice leaves the registry as registering it
/// once does.
pub proof fn register_worker_twice<W, C>(v: RegistryView<W, C>, s: Seq<char>, first: W, second: W)
    ensures
        v.registering_worker(s, first).registering_worker(s, second) == v.registering_worker(
            s,
            first,
        ),
{
    let once = v.registering_worker(s, first);
    if !v.has_worker(s) {
        assert(once.workers[v.workers.len() as int].server_id == s);
    } else {
        let i = choose|i: int| 0 <= i < v.workers.len() && #[trigger] v.workers[i].server_id == s;
        assert(once.workers[i].server_id == s);
    }
}

/// Removing an id that the registry does not know changes nothing.
pub proof fn remove_unknown_is_noop<W, C>(v: RegistryView<W, C>, id: Seq<char>)
    ensures
        !v.has_client(id) ==> v.removing_client(id) == v,
        !v.has_worker(id) ==> v.removing_worker(id) == v,
{
}

} // verus!
