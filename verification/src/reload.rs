//! The live-reload client registry: every connected client is sent each
//! reload signal, and a client whose send fails is removed without
//! touching the others. The registry tracks clients by handle; the
//! websocket channels themselves live with the server.

use vstd::prelude::*;

verus! {

/// The clients pruned by a failure mask: those whose send did not fail,
/// kept in registration order, among the first `n`.
pub open spec fn pruned_upto(clients: Seq<u64>, failed: Seq<bool>, n: int) -> Seq<u64>
    decreases n,
{
    if n <= 0 {
        Seq::empty()
    } else {
        pruned_upto(clients, failed, n - 1) + (if !failed[n - 1] {
            seq![clients[n - 1]]
        } else {
            Seq::empty()
        })
    }
}

/// The clients that stay registered after a broadcast whose sends failed
/// where `failed` says so.
pub open spec fn pruned(clients: Seq<u64>, failed: Seq<bool>) -> Seq<u64> {
    pruned_upto(clients, failed, clients.len() as int)
}

/// The registry of connected live-reload clients, by handle.
#[derive(Debug, Clone)]
pub struct ClientRegistry {
    pub clients: Vec<u64>,
}

impl ClientRegistry {
    /// An empty registry: the server starts with no clients.
    pub fn new() -> (r: ClientRegistry)
        ensures
            r.clients@ == Seq::<u64>::empty(),
    {
        ClientRegistry { clients: Vec::new() }
    }

    /// A new connection registers at the end.
    pub fn register(&mut self, id: u64)
        ensures
            final(self).clients@ == old(self).clients@.push(id),
    {
        self.clients.push(id);
    }

    /// How many clients are connected.
    pub fn client_count(&self) -> (n: usize)
        ensures
            n == self.clients@.len(),
    {
        self.clients.len()
    }

    /// The clients a reload signal goes to: every registered client,
    /// in registration order.
    pub fn broadcast_targets(&self) -> (t: Vec<u64>)
        ensures
            t@ == self.clients@,
    {
        let mut t: Vec<u64> = Vec::new();
        let mut i: usize = 0;
        proof {
            assert(self.clients@.take(0) =~= Seq::<u64>::empty());
        }
        while i < self.clients.len()
            invariant
                0 <= i <= self.clients@.len(),
                t@ == self.clients@.take(i as int),
            decreases self.clients@.len() - i,
        {
            t.push(self.clients[i]);
            proof {
                assert(self.clients@.take(i as int).push(self.clients@[i as int])
                    =~= self.clients@.take(i as int + 1));
            }
            i += 1;
        }
        proof {
            assert(self.clients@.take(self.clients@.len() as int) =~= self.clients@);
        }
        t
    }

    /// After a broadcast, drop exactly the clients whose send failed,
    /// keeping the rest in order.
    pub fn prune_failed(&mut self, failed: &Vec<bool>)
        requires
            failed@.len() == old(self).clients@.len(),
        ensures
            final(self).clients@ == pruned(old(self).clients@, failed@),
    {
        let mut kept: Vec<u64> = Vec::new();
        let mut i: usize = 0;
        while i < self.clients.len()
            invariant
                0 <= i <= self.clients@.len(),
                self.clients@ == old(self).clients@,
                failed@.len() == self.clients@.len(),
                kept@ == pruned_upto(self.clients@, failed@, i as int),
            decreases self.clients@.len() - i,
        {
            if !failed[i] {
                kept.push(self.clients[i]);
            }
            i += 1;
        }
        self.clients = kept;
    }
}

/// Pruning keeps every client whose send succeeded.
pub proof fn lemma_prune_keeps_successes(clients: Seq<u64>, failed: Seq<bool>, n: int)
    requires
        n <= clients.len(),
        n <= failed.len(),
    ensures
        forall|i: int|
            0 <= i < n && !failed[i] ==> pruned_upto(clients, failed, n).contains(clients[i]),
    decreases n,
{
    if n > 0 {
        lemma_prune_keeps_successes(clients, failed, n - 1);
        assert forall|i: int|
            0 <= i < n && !failed[i] implies pruned_upto(clients, failed, n).contains(
            clients[i],
        ) by {
            let prev = pruned_upto(clients, failed, n - 1);
            if i < n - 1 {
                let k = choose|k: int| 0 <= k < prev.len() && prev[k] == clients[i];
                assert(pruned_upto(clients, failed, n)[k] == clients[i]);
            } else {
                let whole = pruned_upto(clients, failed, n);
                assert(whole[whole.len() - 1] == clients[i]);
            }
        }
    }
}

proof fn lemma_pruned_len_one_failure(clients: Seq<u64>, failed: Seq<bool>, j: int, n: int)
    requires
        0 <= j < clients.len(),
        failed.len() == clients.len(),
        0 <= n <= clients.len(),
        failed[j],
        forall|i: int| 0 <= i < clients.len() && i != j ==> !failed[i],
    ensures
        pruned_upto(clients, failed, n).len() == if j < n {
            n - 1
        } else {
            n
        },
    decreases n,
{
    if n > 0 {
        lemma_pruned_len_one_failure(clients, failed, j, n - 1);
        if j == n - 1 {
            assert(failed[n - 1]);
        } else {
            assert(!failed[n - 1]);
        }
    }
}

/// One disconnected client does not block the rest: with `N` clients of
/// which exactly one send failed, every reload still reaches the other
/// `N - 1`, and exactly those stay registered.
pub proof fn lemma_one_disconnect_delivery(clients: Seq<u64>, failed: Seq<bool>, j: int)
    requires
        0 <= j < clients.len(),
        failed.len() == clients.len(),
        failed[j],
        forall|i: int| 0 <= i < clients.len() && i != j ==> !failed[i],
    ensures
        pruned(clients, failed).len() == clients.len() - 1,
        forall|i: int|
            0 <= i < clients.len() && i != j ==> pruned(clients, failed).contains(clients[i]),
{
    lemma_pruned_len_one_failure(clients, failed, j, clients.len() as int);
    lemma_prune_keeps_successes(clients, failed, clients.len() as int);
    assert forall|i: int|
        0 <= i < clients.len() && i != j implies pruned(clients, failed).contains(clients[i]) by {
        assert(!failed[i]);
    }
}

} // verus!
