use std::collections::VecDeque;

use shop_ring::codec::ElectionMessage;
use shop_ring::election::{max_id, respond, LeaderElection};
use shop_ring::errors::Error;
use shop_ring::ring::RingSend;

struct Ring {
    nodes: Vec<LeaderElection>,
    live: Vec<bool>,
    queue: VecDeque<(u64, u64, ElectionMessage)>,
    trace: Vec<(u64, ElectionMessage)>,
}

impl Ring {
    fn new(n: u64, live: Vec<bool>) -> Ring {
        let nodes = (0..n).map(|id| LeaderElection::new(id, n).unwrap()).collect();
        Ring { nodes, live, queue: VecDeque::new(), trace: vec![] }
    }

    // Sends round the ring from `from`, skipping nodes that never answer.
    fn ring_send(&mut self, from: u64, msg: ElectionMessage) -> bool {
        let mut send = self.nodes[from as usize].start_send();
        loop {
            match send {
                Err(_) => return false,
                Ok(s) => {
                    if self.live[s.target as usize] {
                        self.queue.push_back((from, s.target, msg));
                        return true;
                    }
                    send = s.after_timeout();
                }
            }
        }
    }

    fn run_election(&mut self, id: u64) {
        if let Some(msg) = self.nodes[id as usize].begin_round() {
            if !self.ring_send(id, msg) {
                self.nodes[id as usize].round_unanswered();
            }
        }
    }

    fn step(&mut self) -> bool {
        let (from, to, msg) = match self.queue.pop_front() {
            Some(item) => item,
            None => return false,
        };
        self.trace.push((to, msg.clone()));
        let reaction = self.nodes[to as usize].handle(&msg);
        if reaction.ack {
            self.nodes[from as usize].handle(&ElectionMessage::Ack { sender: to });
        }
        if let Some(winner) = reaction.announce {
            self.queue.push_back((to, from, ElectionMessage::Coordinator { winner, path: vec![to] }));
        }
        if let Some(fwd) = reaction.forward {
            self.ring_send(to, fwd);
        }
        true
    }

    fn settle(&mut self) {
        let mut steps = 0;
        while self.step() {
            steps += 1;
            assert!(steps < 1000);
        }
    }
}

#[test]
fn three_live_nodes_elect_the_largest() {
    let mut ring = Ring::new(3, vec![true, true, true]);
    ring.run_election(0);
    ring.settle();
    let expected = vec![
        (1, ElectionMessage::Election { path: vec![0] }),
        (2, ElectionMessage::Election { path: vec![0, 1] }),
        (0, ElectionMessage::Election { path: vec![0, 1, 2] }),
        (2, ElectionMessage::Coordinator { winner: 2, path: vec![0] }),
        (0, ElectionMessage::Coordinator { winner: 2, path: vec![0, 2] }),
    ];
    assert_eq!(ring.trace, expected);
    assert_eq!(ring.nodes[0].leader(), Some(2));
    assert_eq!(ring.nodes[2].leader(), Some(2));
    // Every node opens a round of its own at startup; node 1's settles it.
    ring.run_election(1);
    ring.settle();
    for node in &ring.nodes {
        assert_eq!(node.leader(), Some(2));
    }
    assert_eq!(ring.nodes[2].am_i_leader(), Ok(true));
    assert_eq!(ring.nodes[0].am_i_leader(), Ok(false));
    assert_eq!(ring.nodes[1].get_leader_id(), Ok(2));
}

#[test]
fn offline_node_is_skipped() {
    let mut ring = Ring::new(3, vec![true, false, true]);
    ring.run_election(0);
    ring.settle();
    assert_eq!(ring.trace[0], (2, ElectionMessage::Election { path: vec![0] }));
    assert_eq!(ring.trace[1], (0, ElectionMessage::Election { path: vec![0, 2] }));
    assert_eq!(ring.nodes[0].leader(), Some(2));
    assert_eq!(ring.nodes[2].leader(), Some(2));
}

#[test]
fn lone_node_leads_without_sending() {
    let mut ring = Ring::new(1, vec![true]);
    ring.run_election(0);
    assert!(ring.queue.is_empty());
    assert_eq!(ring.nodes[0].leader(), Some(0));
    assert_eq!(ring.nodes[0].am_i_leader(), Ok(true));
}

#[test]
fn all_others_offline_leads_alone() {
    let mut ring = Ring::new(4, vec![false, true, false, false]);
    ring.run_election(1);
    ring.settle();
    assert!(ring.trace.is_empty());
    assert_eq!(ring.nodes[1].leader(), Some(1));
}

#[test]
fn concurrent_elections_agree() {
    let mut ring = Ring::new(3, vec![true, true, true]);
    ring.run_election(0);
    ring.run_election(2);
    ring.settle();
    ring.run_election(1);
    ring.settle();
    for node in &ring.nodes {
        assert_eq!(node.leader(), Some(2));
    }
}

#[test]
fn announcement_is_forwarded_once() {
    let first = respond(1, &ElectionMessage::Coordinator { winner: 2, path: vec![0] });
    assert_eq!(first.leader, Some(2));
    let forwarded = first.forward.unwrap();
    assert_eq!(forwarded, ElectionMessage::Coordinator { winner: 2, path: vec![0, 1] });
    let again = respond(1, &forwarded);
    assert!(again.forward.is_none());
    assert!(again.ack);
}

#[test]
fn lap_announces_the_largest_id() {
    let r = respond(0, &ElectionMessage::Election { path: vec![0, 4, 1] });
    assert_eq!(r.announce, Some(4));
    assert!(r.forward.is_none());
    assert_eq!(max_id(&vec![3, 9, 2]), 9);
}

#[test]
fn ack_is_recorded_and_cleared() {
    let mut node = LeaderElection::new(0, 3).unwrap();
    let r = node.handle(&ElectionMessage::Ack { sender: 1 });
    assert!(!r.ack);
    assert_eq!(node.got_ack(), Some(1));
    node.clear_ack();
    assert_eq!(node.got_ack(), None);
}

#[test]
fn open_round_has_no_leader() {
    let mut node = LeaderElection::new(2, 3).unwrap();
    assert_eq!(node.get_leader_id(), Ok(2));
    let msg = node.begin_round();
    assert_eq!(msg, Some(ElectionMessage::Election { path: vec![2] }));
    assert_eq!(node.get_leader_id(), Err(Error::CantGetLeaderId));
    assert_eq!(node.am_i_leader(), Err(Error::CantGetShopId));
    node.handle(&ElectionMessage::Coordinator { winner: 2, path: vec![0] });
    assert_eq!(node.am_i_leader(), Ok(true));
}

#[test]
fn stopped_node_opens_no_round() {
    let mut node = LeaderElection::new(1, 3).unwrap();
    node.request_stop();
    assert!(node.stop_requested());
    assert_eq!(node.begin_round(), None);
    assert_eq!(node.leader(), Some(1));
}

#[test]
fn id_outside_ring_is_refused() {
    assert_eq!(LeaderElection::new(3, 3), Err(Error::CantGetShopId));
    assert_eq!(RingSend::start(1, 2).map(|s| s.target), Ok(0));
}

#[test]
fn lone_node_send_keeps_recorded_ack() {
    let mut node = LeaderElection::new(0, 1).unwrap();
    node.handle(&ElectionMessage::Ack { sender: 0 });
    assert_eq!(node.start_send(), Err(Error::Timeout));
    assert_eq!(node.got_ack(), Some(0));
}

#[test]
fn send_start_forgets_recorded_ack() {
    let mut node = LeaderElection::new(0, 3).unwrap();
    node.handle(&ElectionMessage::Ack { sender: 2 });
    assert_eq!(node.start_send().map(|s| s.target), Ok(1));
    assert_eq!(node.got_ack(), None);
}
