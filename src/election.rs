use vstd::prelude::*;

use crate::codec::{ElectionMessage, MessageView};
use crate::errors::Error;
use crate::ring::{lemma_ring_lap, ring_walk};

verus! {

/// The largest id of a non-empty path.
pub open spec fn seq_max(s: Seq<u64>) -> u64
    recommends
        s.len() > 0,
    decreases s.len(),
{
    if s.len() <= 1 {
        s[0]
    } else {
        let m = seq_max(s.drop_last());
        if s.last() > m {
            s.last()
        } else {
            m
        }
    }
}

/// What a node does on one received message.
pub struct ReactionView {
    /// Whether it acknowledges the message to its immediate sender.
    pub ack: bool,
    /// A winner announced back to the immediate sender, when an election
    /// has gone all the way round.
    pub announce: Option<u64>,
    /// A message handed to the ring transmitter.
    pub forward: Option<MessageView>,
    /// The leader that the node now knows.
    pub leader: Option<u64>,
    /// The acknowledgment sender that the node records.
    pub ack_from: Option<u64>,
}

/// How node `self_id` reacts to message `m`.
pub open spec fn reaction(self_id: u64, m: MessageView) -> ReactionView {
    match m {
        MessageView::Election { path } => if path.contains(self_id) {
            ReactionView {
                ack: true,
                announce: Some(seq_max(path)),
                forward: None,
                leader: None,
                ack_from: None,
            }
        } else {
            ReactionView {
                ack: true,
                announce: None,
                forward: Some(MessageView::Election { path: path.push(self_id) }),
                leader: None,
                ack_from: None,
            }
        },
        MessageView::Ack { sender } => ReactionView {
            ack: false,
            announce: None,
            forward: None,
            leader: None,
            ack_from: Some(sender),
        },
        MessageView::Coordinator { winner, path } => ReactionView {
            ack: true,
            announce: None,
            forward: if path.contains(self_id) {
                None
            } else {
                Some(MessageView::Coordinator { winner, path: path.push(self_id) })
            },
            leader: Some(winner),
            ack_from: None,
        },
    }
}

/// What a node does on one received message.
#[derive(Debug)]
pub struct Reaction {
    pub ack: bool,
    pub announce: Option<u64>,
    pub forward: Option<ElectionMessage>,
    pub leader: Option<u64>,
    pub ack_from: Option<u64>,
}

impl View for Reaction {
    type V = ReactionView;

    open spec fn view(&self) -> ReactionView {
        ReactionView {
            ack: self.ack,
            announce: self.announce,
            forward: match self.forward {
                Some(m) => Some(m@),
                None => None,
            },
            leader: self.leader,
            ack_from: self.ack_from,
        }
    }
}

/// The largest id of a non-empty path.
pub fn max_id(path: &Vec<u64>) -> (r: u64)
    requires
        path@.len() > 0,
    ensures
        r == seq_max(path@),
{
    let mut best = path[0];
    let mut i: usize = 1;
    while i < path.len()
        invariant
            1 <= i <= path@.len(),
            best == seq_max(path@.take(i as int)),
        decreases path@.len() - i,
    {
        proof {
            assert(path@.take(i + 1).drop_last() =~= path@.take(i as int));
        }
        if path[i] > best {
            best = path[i];
        }
        i = i + 1;
    }
    assert(path@.take(i as int) =~= path@);
    best
}

/// Whether `id` occurs in `path`.
pub fn contains_id(path: &Vec<u64>, id: u64) -> (r: bool)
    ensures
        r == path@.contains(id),
{
    let mut i: usize = 0;
    while i < path.len()
        invariant
            i <= path@.len(),
            forall|j: int| 0 <= j < i ==> path@[j] != id,
        decreases path@.len() - i,
    {
        if path[i] == id {
            return true;
        }
        i = i + 1;
    }
    false
}

/// `path` with `id` appended.
fn appended(path: &Vec<u64>, id: u64) -> (r: Vec<u64>)
    ensures
        r@ == path@.push(id),
{
    let mut out = path.clone();
    out.push(id);
    out
}

/// Decides how node `self_id` reacts to a received message.
pub fn respond(self_id: u64, msg: &ElectionMessage) -> (r: Reaction)
    ensures
        r@ == reaction(self_id, msg@),
{
    match msg {
        ElectionMessage::Election { path } => {
            if contains_id(path, self_id) {
                Reaction {
                    ack: true,
                    announce: Some(max_id(path)),
                    forward: None,
                    leader: None,
                    ack_from: None,
                }
            } else {
                Reaction {
                    ack: true,
                    announce: None,
                    forward: Some(ElectionMessage::Election { path: appended(path, self_id) }),
                    leader: None,
                    ack_from: None,
                }
            }
        },
        ElectionMessage::Ack { sender } => Reaction {
            ack: false,
            announce: None,
            forward: None,
            leader: None,
            ack_from: Some(*sender),
        },
        ElectionMessage::Coordinator { winner, path } => {
            let forward = if contains_id(path, self_id) {
                None
            } else {
                Some(ElectionMessage::Coordinator { winner: *winner, path: appended(path, self_id) })
            };
            Reaction { ack: true, announce: None, forward, leader: Some(*winner), ack_from: None }
        },
    }
}

/// Model of the state that one node keeps for the election.
pub struct NodeStateView {
    pub id: u64,
    pub shops_amount: u64,
    pub leader: Option<u64>,
    pub got_ack: Option<u64>,
    pub stop: bool,
}

/// The election state of one node: its id, the ring size, the leader it
/// knows (`None` while a round is open), the last acknowledgment sender it
/// recorded, and whether it was asked to stop.
#[derive(Debug, Clone, Copy, PartialEq, Eq)]
pub struct LeaderElection {
    id: u64,
    shops_amount: u64,
    leader: Option<u64>,
    got_ack: Option<u64>,
    stop: bool,
}

impl View for LeaderElection {
    type V = NodeStateView;

    closed spec fn view(&self) -> NodeStateView {
        NodeStateView {
            id: self.id,
            shops_amount: self.shops_amount,
            leader: self.leader,
            got_ack: self.got_ack,
            stop: self.stop,
        }
    }
}

impl LeaderElection {
    /// The node belongs to its ring.
    pub open spec fn wf(&self) -> bool {
        self@.id < self@.shops_amount
    }

    /// The state of node `id` at startup: itself as placeholder leader.
    pub fn new(id: u64, shops_amount: u64) -> (r: Result<LeaderElection, Error>)
        ensures
            match r {
                Ok(s) => id < shops_amount && s.wf() && s@ == (NodeStateView {
                    id,
                    shops_amount,
                    leader: Some(id),
                    got_ack: None,
                    stop: false,
                }),
                Err(e) => shops_amount <= id && e == Error::CantGetShopId,
            },
    {
        if id < shops_amount {
            Ok(LeaderElection { id, shops_amount, leader: Some(id), got_ack: None, stop: false })
        } else {
            Err(Error::CantGetShopId)
        }
    }

    pub fn id(&self) -> (r: u64)
        ensures
            r == self@.id,
    {
        self.id
    }

    pub fn shops_amount(&self) -> (r: u64)
        ensures
            r == self@.shops_amount,
    {
        self.shops_amount
    }

    /// The leader, once a round has resolved it.
    pub fn leader(&self) -> (r: Option<u64>)
        ensures
            r == self@.leader,
    {
        self.leader
    }

    /// The leader, or `CantGetLeaderId` while a round is open.
    pub fn get_leader_id(&self) -> (r: Result<u64, Error>)
        ensures
            r == (match self@.leader {
                Some(l) => Ok::<u64, Error>(l),
                None => Err::<u64, Error>(Error::CantGetLeaderId),
            }),
    {
        match self.leader {
            Some(l) => Ok(l),
            None => Err(Error::CantGetLeaderId),
        }
    }

    /// Whether this node is the leader, or `CantGetShopId` while a round is
    /// open.
    pub fn am_i_leader(&self) -> (r: Result<bool, Error>)
        ensures
            r == (match self@.leader {
                Some(l) => Ok::<bool, Error>(l == self@.id),
                None => Err::<bool, Error>(Error::CantGetShopId),
            }),
    {
        match self.get_leader_id() {
            Ok(l) => Ok(l == self.id),
            Err(_) => Err(Error::CantGetShopId),
        }
    }

    /// Opens a round: forgets the leader and gives the election message to
    /// send round the ring. Does nothing once a stop was asked for.
    pub fn begin_round(&mut self) -> (r: Option<ElectionMessage>)
        ensures
            old(self)@.stop ==> r is None && *final(self) == *old(self),
            !old(self)@.stop ==> r is Some && r->0@ == (MessageView::Election {
                path: seq![old(self)@.id],
            }) && final(self)@ == (NodeStateView { leader: None, ..old(self)@ }),
    {
        if self.stop {
            return None;
        }
        self.leader = None;
        let path = vec![self.id];
        assert(path@ =~= seq![self.id]);
        Some(ElectionMessage::Election { path })
    }

    /// Closes a round whose election message nobody acknowledged: the node
    /// is alone and leads.
    pub fn round_unanswered(&mut self)
        ensures
            final(self)@ == (NodeStateView { leader: Some(old(self)@.id), ..old(self)@ }),
    {
        self.leader = Some(self.id);
    }

    /// Starts a ring send from this node, forgetting the recorded
    /// acknowledgment; `Timeout`, with the state untouched, where nobody else
    /// is on the ring.
    pub fn start_send(&mut self) -> (r: Result<crate::ring::RingSend, Error>)
        requires
            old(self).wf(),
        ensures
            r is Ok ==> final(self)@ == (NodeStateView { got_ack: None, ..old(self)@ }),
            r is Err ==> final(self)@ == old(self)@,
            match r {
                Ok(s) => s.wf() && s.self_id == old(self)@.id && s.shops_amount
                    == old(self)@.shops_amount && crate::ring::first_target(
                    old(self)@.id as int,
                    old(self)@.shops_amount as int,
                ) == Some(s.target as int),
                Err(e) => e == Error::Timeout && crate::ring::first_target(
                    old(self)@.id as int,
                    old(self)@.shops_amount as int,
                ) is None,
            },
    {
        let r = crate::ring::RingSend::start(self.id, self.shops_amount);
        if r.is_ok() {
            self.got_ack = None;
        }
        r
    }

    /// Forgets the recorded acknowledgment before a send is retried.
    pub fn clear_ack(&mut self)
        ensures
            final(self)@ == (NodeStateView { got_ack: None, ..old(self)@ }),
    {
        self.got_ack = None;
    }

    /// The acknowledgment sender last recorded.
    pub fn got_ack(&self) -> (r: Option<u64>)
        ensures
            r == self@.got_ack,
    {
        self.got_ack
    }

    /// Applies a received message to the state and says what to send.
    pub fn handle(&mut self, msg: &ElectionMessage) -> (r: Reaction)
        ensures
            r@ == reaction(old(self)@.id, msg@),
            final(self)@ == (NodeStateView {
                leader: match r@.leader {
                    Some(l) => Some(l),
                    None => old(self)@.leader,
                },
                got_ack: match r@.ack_from {
                    Some(a) => Some(a),
                    None => old(self)@.got_ack,
                },
                ..old(self)@
            }),
    {
        let r = respond(self.id, msg);
        if let Some(l) = r.leader {
            self.leader = Some(l);
        }
        if let Some(a) = r.ack_from {
            self.got_ack = Some(a);
        }
        r
    }

    /// Asks the node to stop; the request stays until the node has stopped.
    pub fn request_stop(&mut self)
        ensures
            final(self)@ == (NodeStateView { stop: true, ..old(self)@ }),
    {
        self.stop = true;
    }

    /// Whether a stop was asked for.
    pub fn stop_requested(&self) -> (r: bool)
        ensures
            r == self@.stop,
    {
        self.stop
    }
}

/// A node that has already put itself on an announcement's path never
/// forwards that announcement, and a node that forwards one puts itself on
/// its path, so a second arrival is not forwarded again.
pub proof fn lemma_announcement_forwarded_once(self_id: u64, winner: u64, path: Seq<u64>)
    ensures
        path.contains(self_id) ==> reaction(
            self_id,
            MessageView::Coordinator { winner, path },
        ).forward is None,
        !path.contains(self_id) ==> reaction(
            self_id,
            MessageView::Coordinator { winner, path: path.push(self_id) },
        ).forward is None,
{
    assert(path.push(self_id)[path.len() as int] == self_id);
}

proof fn lemma_seq_max(s: Seq<u64>)
    requires
        s.len() > 0,
    ensures
        s.contains(seq_max(s)),
        forall|i: int| 0 <= i < s.len() ==> s[i] <= seq_max(s),
    decreases s.len(),
{
    if s.len() > 1 {
        let d = s.drop_last();
        lemma_seq_max(d);
        let m = seq_max(d);
        assert forall|i: int| 0 <= i < s.len() implies s[i] <= seq_max(s) by {
            if i < d.len() {
                assert(s[i] == d[i]);
            }
        }
        if s.last() > m {
            assert(s[s.len() - 1] == seq_max(s));
        } else {
            let k = choose|k: int| 0 <= k < d.len() && d[k] == m;
            assert(s[k] == seq_max(s));
        }
    } else {
        assert(s[0] == seq_max(s));
    }
}

/// The path of an election started by `id` on a ring where every node
/// answers, after it has passed `k` nodes.
pub open spec fn live_path(id: u64, shops_amount: u64, k: nat) -> Seq<u64> {
    Seq::new(k, |j: int| ring_walk(id as int, shops_amount as int, j as nat) as u64)
}

/// On a ring where every node answers, an election started by any node
/// picks up each node once, comes back to its starter, and names the
/// largest id: the starter announces it, and every node that the
/// announcement reaches takes it as leader.
pub proof fn lemma_live_ring_elects_largest(id: u64, shops_amount: u64, k: nat, node: u64)
    requires
        0 < shops_amount,
        id < shops_amount,
        1 <= k < shops_amount,
    ensures
        reaction(
            ring_walk(id as int, shops_amount as int, k) as u64,
            MessageView::Election { path: live_path(id, shops_amount, k) },
        ).forward == Some(MessageView::Election { path: live_path(id, shops_amount, k + 1) }),
        reaction(id, MessageView::Election { path: live_path(id, shops_amount, shops_amount as nat) }).announce
            == Some((shops_amount - 1) as u64),
        reaction(node, MessageView::Coordinator { winner: (shops_amount - 1) as u64, path: seq![id] }).leader
            == Some((shops_amount - 1) as u64),
{
    let n = shops_amount as int;
    lemma_ring_lap(id as int, n);
    let p = live_path(id, shops_amount, k);
    let me = ring_walk(id as int, n, k) as u64;
    assert(0 <= ring_walk(id as int, n, k) < n);
    assert forall|j: int| 0 <= j < p.len() implies p[j] != me by {
        assert(0 <= ring_walk(id as int, n, j as nat) < n);
    }
    assert(!p.contains(me));
    assert(p.push(me) =~= live_path(id, shops_amount, k + 1));
    let lap = live_path(id, shops_amount, shops_amount as nat);
    assert(lap[0] == id);
    assert(lap.contains(id));
    lemma_seq_max(lap);
    let top = steps_to_top(id, shops_amount);
    assert(lap[top as int] == (shops_amount - 1) as u64);
    assert forall|j: int| 0 <= j < lap.len() implies lap[j] <= (shops_amount - 1) as u64 by {
        assert(0 <= ring_walk(id as int, n, j as nat) < n);
    }
}

/// The node that closes the lap of an election started by `id` on a ring
/// where every node answers: the one just before `id`.
pub open spec fn lap_closer(id: u64, shops_amount: u64) -> u64 {
    ring_walk(id as int, shops_amount as int, (shops_amount - 1) as nat) as u64
}

/// On a ring of two or more nodes where every node answers, the starter of
/// an election learns the largest id. The lap closes with an election
/// message from the node before the starter; the starter announces the
/// winner back to that node, which takes it as leader, puts itself on the
/// path and sends it on round the ring, where the starter is next. The
/// starter takes it as leader and forwards it no further.
pub proof fn lemma_starter_learns_largest(id: u64, shops_amount: u64)
    requires
        2 <= shops_amount,
        id < shops_amount,
    ensures
        live_path(id, shops_amount, shops_amount as nat).last() == lap_closer(id, shops_amount),
        reaction(
            lap_closer(id, shops_amount),
            MessageView::Coordinator { winner: (shops_amount - 1) as u64, path: seq![id] },
        ).leader == Some((shops_amount - 1) as u64),
        reaction(
            lap_closer(id, shops_amount),
            MessageView::Coordinator { winner: (shops_amount - 1) as u64, path: seq![id] },
        ).forward == Some(
            MessageView::Coordinator {
                winner: (shops_amount - 1) as u64,
                path: seq![id, lap_closer(id, shops_amount)],
            },
        ),
        crate::ring::first_target(lap_closer(id, shops_amount) as int, shops_amount as int)
            == Some(id as int),
        reaction(
            id,
            MessageView::Coordinator {
                winner: (shops_amount - 1) as u64,
                path: seq![id, lap_closer(id, shops_amount)],
            },
        ).leader == Some((shops_amount - 1) as u64),
        reaction(
            id,
            MessageView::Coordinator {
                winner: (shops_amount - 1) as u64,
                path: seq![id, lap_closer(id, shops_amount)],
            },
        ).forward is None,
{
    let n = shops_amount as int;
    lemma_ring_lap(id as int, n);
    let last = lap_closer(id, shops_amount);
    let k = (shops_amount - 1) as nat;
    assert(0 <= ring_walk(id as int, n, k) < n);
    assert(ring_walk(id as int, n, 0) == id);
    assert(ring_walk(id as int, n, 0) != ring_walk(id as int, n, k));
    assert(last != id);
    assert(!seq![id].contains(last)) by {
        assert(seq![id][0] == id);
    }
    assert(seq![id].push(last) =~= seq![id, last]);
    assert(ring_walk(id as int, n, (k + 1) as nat) == crate::ring::ring_next(
        ring_walk(id as int, n, k),
        n,
    ));
    assert(seq![id, last][0] == id);
}

/// Steps from `id` to the node with the largest id.
spec fn steps_to_top(id: u64, shops_amount: u64) -> nat {
    crate::ring::steps_to(id as int, shops_amount - 1, shops_amount as int)
}

} // verus!
