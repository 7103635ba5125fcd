use vstd::prelude::*;
use vstd::arithmetic::div_mod::{lemma_mod_self_0, lemma_small_mod};

use crate::errors::Error;

verus! {

/// First port of the node endpoints: node `id` listens on `BASE_PORT + id`.
pub const BASE_PORT: u64 = 1234;

/// The ring position after `id` on a ring of `shops_amount` nodes.
pub open spec fn ring_next(id: int, shops_amount: int) -> int {
    (id + 1) % shops_amount
}

/// The position reached from `id` after `k` steps round the ring.
pub open spec fn ring_walk(id: int, shops_amount: int, k: nat) -> int
    decreases k,
{
    if k == 0 {
        id
    } else {
        ring_next(ring_walk(id, shops_amount, (k - 1) as nat), shops_amount)
    }
}

/// The port that node `id` listens on.
pub open spec fn port_of(id: int) -> int {
    BASE_PORT + id
}

/// The node after `id` on a ring of `shops_amount` nodes.
pub fn next(id: u64, shops_amount: u64) -> (r: u64)
    requires
        shops_amount > 0,
    ensures
        r == ring_next(id as int, shops_amount as int),
        r < shops_amount,
{
    ((id as u128 + 1) % (shops_amount as u128)) as u64
}

/// The loopback port of node `id`; `None` where it would not be a port.
pub fn node_port(id: u64) -> (r: Option<u16>)
    ensures
        r == (if port_of(id as int) <= u16::MAX {
            Some(port_of(id as int) as u16)
        } else {
            None::<u16>
        }),
{
    if id <= (u16::MAX as u64) - BASE_PORT {
        Some((BASE_PORT + id) as u16)
    } else {
        None
    }
}

/// How many steps round the ring lead from `id` to `v`.
pub open spec fn steps_to(id: int, v: int, shops_amount: int) -> nat {
    if v >= id {
        (v - id) as nat
    } else {
        (v + shops_amount - id) as nat
    }
}

proof fn lemma_walk_closed(id: int, n: int, k: nat)
    requires
        0 < n,
        0 <= id < n,
        k <= n,
    ensures
        ring_walk(id, n, k) == (if id + k < n {
            id + k
        } else {
            id + k - n
        }),
    decreases k,
{
    if k > 0 {
        lemma_walk_closed(id, n, (k - 1) as nat);
        let p = ring_walk(id, n, (k - 1) as nat);
        if p + 1 < n {
            lemma_small_mod((p + 1) as nat, n as nat);
        } else {
            lemma_mod_self_0(n);
        }
    }
}

/// Walking the ring from a node comes back to it after exactly
/// `shops_amount` steps, and meets every node once on the way.
pub proof fn lemma_ring_lap(id: int, shops_amount: int)
    requires
        0 < shops_amount,
        0 <= id < shops_amount,
    ensures
        ring_walk(id, shops_amount, shops_amount as nat) == id,
        forall|j: nat, k: nat|
            j < k < shops_amount ==> ring_walk(id, shops_amount, j) != ring_walk(
                id,
                shops_amount,
                k,
            ),
        forall|v: int|
            0 <= v < shops_amount ==> #[trigger] steps_to(id, v, shops_amount) < shops_amount
                && ring_walk(id, shops_amount, steps_to(id, v, shops_amount)) == v,
        forall|k: nat| k <= shops_amount ==> 0 <= #[trigger] ring_walk(id, shops_amount, k) < shops_amount,
{
    let n = shops_amount;
    lemma_walk_closed(id, n, n as nat);
    assert forall|j: nat, k: nat| j < k < n implies ring_walk(id, n, j) != ring_walk(
        id,
        n,
        k,
    ) by {
        lemma_walk_closed(id, n, j);
        lemma_walk_closed(id, n, k);
    }
    assert forall|v: int| 0 <= v < n implies #[trigger] steps_to(id, v, n) < n && ring_walk(
        id,
        n,
        steps_to(id, v, n),
    ) == v by {
        lemma_walk_closed(id, n, steps_to(id, v, n));
    }
    assert forall|k: nat| k <= n implies 0 <= #[trigger] ring_walk(id, n, k) < n by {
        lemma_walk_closed(id, n, k);
    }
}

/// The first node that a send from `self_id` tries, if any.
pub open spec fn first_target(self_id: int, shops_amount: int) -> Option<int> {
    target_after(self_id, self_id, shops_amount)
}

/// The node tried after `target` gave no acknowledgment, if any: `None`
/// once the search has come back round to the sender.
pub open spec fn target_after(self_id: int, target: int, shops_amount: int) -> Option<int> {
    if ring_next(target, shops_amount) == self_id {
        None
    } else {
        Some(ring_next(target, shops_amount))
    }
}

/// A ring send in progress: the sender and the node it waits on.
#[derive(Debug, Clone, Copy, PartialEq, Eq)]
pub struct RingSend {
    pub self_id: u64,
    pub shops_amount: u64,
    pub target: u64,
}

impl RingSend {
    /// A send state that belongs to a ring.
    pub open spec fn wf(&self) -> bool {
        0 < self.shops_amount && self.self_id < self.shops_amount && self.target
            < self.shops_amount
    }

    /// Starts a send from `self_id` to its ring successor; `Timeout` when the
    /// successor is the sender itself.
    pub fn start(self_id: u64, shops_amount: u64) -> (r: Result<RingSend, Error>)
        requires
            self_id < shops_amount,
        ensures
            match r {
                Ok(s) => s.wf() && s.self_id == self_id && s.shops_amount == shops_amount
                    && first_target(self_id as int, shops_amount as int) == Some(s.target as int),
                Err(e) => e == Error::Timeout && first_target(self_id as int, shops_amount as int)
                    is None,
            },
    {
        let t = next(self_id, shops_amount);
        if t == self_id {
            Err(Error::Timeout)
        } else {
            Ok(RingSend { self_id, shops_amount, target: t })
        }
    }

    /// The send that follows a timeout of this one: the next node along, or
    /// `Timeout` once the search has come back round to the sender.
    pub fn after_timeout(&self) -> (r: Result<RingSend, Error>)
        requires
            self.wf(),
        ensures
            match r {
                Ok(s) => s.wf() && s.self_id == self.self_id && s.shops_amount
                    == self.shops_amount && target_after(
                    self.self_id as int,
                    self.target as int,
                    self.shops_amount as int,
                ) == Some(s.target as int),
                Err(e) => e == Error::Timeout && target_after(
                    self.self_id as int,
                    self.target as int,
                    self.shops_amount as int,
                ) is None,
            },
    {
        let t = next(self.target, self.shops_amount);
        if t == self.self_id {
            Err(Error::Timeout)
        } else {
            Ok(RingSend { self_id: self.self_id, shops_amount: self.shops_amount, target: t })
        }
    }

    /// Whether the recorded acknowledgment comes from the node waited on.
    pub fn is_acked(&self, got: Option<u64>) -> (r: bool)
        ensures
            r == (got == Some(self.target)),
    {
        match got {
            Some(sender) => sender == self.target,
            None => false,
        }
    }
}

/// On a ring of one node a send has nobody to try.
pub proof fn lemma_single_node_sends_nothing(self_id: int)
    requires
        self_id == 0,
    ensures
        first_target(self_id, 1) is None,
{
}

/// When a sender's successor does not answer, the next try goes to the
/// successor's successor (whose acknowledgment `RingSend::is_acked` accepts).
pub proof fn lemma_dead_successor_skipped(self_id: int, shops_amount: int)
    requires
        3 <= shops_amount,
        0 <= self_id < shops_amount,
    ensures
        first_target(self_id, shops_amount) == Some(ring_walk(self_id, shops_amount, 1)),
        target_after(self_id, ring_walk(self_id, shops_amount, 1), shops_amount) == Some(
            ring_walk(self_id, shops_amount, 2),
        ),
{
    lemma_ring_lap(self_id, shops_amount);
    assert(ring_walk(self_id, shops_amount, 0) == self_id);
}

/// After `k` timeouts a send waits on the node `k + 1` steps along, and it
/// gives up after `shops_amount - 1` tries, when the search is back at the sender.
pub proof fn lemma_send_gives_up_after_lap(self_id: int, shops_amount: int, k: nat)
    requires
        0 < shops_amount,
        0 <= self_id < shops_amount,
        k + 1 < shops_amount,
    ensures
        k + 2 < shops_amount ==> target_after(
            self_id,
            ring_walk(self_id, shops_amount, k + 1),
            shops_amount,
        ) == Some(ring_walk(self_id, shops_amount, k + 2)),
        k + 2 == shops_amount ==> target_after(
            self_id,
            ring_walk(self_id, shops_amount, k + 1),
            shops_amount,
        ) is None,
        first_target(self_id, shops_amount) == Some(ring_walk(self_id, shops_amount, 1)),
{
    lemma_ring_lap(self_id, shops_amount);
    assert(ring_walk(self_id, shops_amount, 0) == self_id);
    assert(ring_walk(self_id, shops_amount, k + 2) == ring_next(
        ring_walk(self_id, shops_amount, k + 1),
        shops_amount,
    ));
}

} // verus!
