use crust::failure::RepairStep;
use crust::node::initialize_node;
use crust::node::ChordNode;
use crust::node::ContainsOutcome;
use crust::node::InsertOutcome;
use crust::ring::get_identifier;
use crust::ringwalk::VisInfo;
use crust::routing::Lookup;
use crust::routing::LookupStep;
use crust::stabilize::RoundEvent;
use crust::stabilize::RoundStep;
use crust::text::decimal_text;

const A: &str = "10.0.0.3"; // identifier 20
const B: &str = "10.0.0.2"; // identifier 34
const C: &str = "10.0.0.1"; // identifier 40
const D: &str = "10.0.0.5"; // identifier 62
const E: &str = "10.0.0.4"; // identifier 28

fn s(text: &str) -> String {
    text.to_string()
}

fn id(text: &str) -> u64 {
    get_identifier(&s(text))
}

/// A network held in memory: every request to a peer is a call on its node.
struct Net {
    nodes: Vec<ChordNode>,
    up: Vec<bool>,
    rounds: usize,
}

#[derive(Debug, PartialEq)]
struct Unreachable;

impl Net {
    fn new() -> Net {
        Net { nodes: Vec::new(), up: Vec::new(), rounds: 0 }
    }

    fn at(&self, addr: &str) -> usize {
        self.nodes.iter().position(|n| n.self_ip() == addr).expect("unknown node")
    }

    fn node(&self, addr: &str) -> &ChordNode {
        &self.nodes[self.at(addr)]
    }

    fn alive(&self, addr: &str) -> bool {
        match self.nodes.iter().position(|n| n.self_ip() == addr) {
            Some(i) => self.up[i],
            None => false,
        }
    }

    fn kill(&mut self, addr: &str) {
        let i = self.at(addr);
        self.up[i] = false;
    }

    fn ask_successor(&self, addr: &str) -> Result<String, Unreachable> {
        if self.alive(addr) { Ok(self.node(addr).get_successor()) } else { Err(Unreachable) }
    }

    fn ask_predecessor(&self, addr: &str) -> Result<String, Unreachable> {
        if self.alive(addr) { Ok(self.node(addr).get_predecessor()) } else { Err(Unreachable) }
    }

    fn ask_closer(&self, addr: &str, id: u64) -> Result<String, Unreachable> {
        if self.alive(addr) { Ok(self.node(addr).closest_preceding(id)) } else { Err(Unreachable) }
    }

    fn send_notify(&mut self, addr: &str, from: &str) -> Result<(), Unreachable> {
        if !self.alive(addr) {
            return Err(Unreachable);
        }
        let i = self.at(addr);
        let predecessor_alive = self.alive(&self.nodes[i].get_predecessor());
        self.nodes[i].notify(s(from), predecessor_alive);
        Ok(())
    }

    /// The repair that follows every failed request of the node `addr`.
    fn repair(&mut self, addr: &str) {
        let i = self.at(addr);
        let mut repair = self.nodes[i].handle_failure();
        loop {
            match repair.step() {
                RepairStep::Probe(peer) => {
                    let ok = self.alive(&peer);
                    repair.advance(&mut self.nodes[i], ok);
                }
                RepairStep::Notify(peer) => {
                    let ok = self.send_notify(&peer, addr).is_ok();
                    repair.advance(&mut self.nodes[i], ok);
                }
                RepairStep::Finished => return,
            }
        }
    }

    fn drive(&mut self, addr: &str, mut lookup: Lookup) -> Result<String, Unreachable> {
        let i = self.at(addr);
        for _ in 0..200 {
            let reply = match lookup.step() {
                LookupStep::Found(answer) => return Ok(answer),
                LookupStep::AskSuccessor(peer) => self.ask_successor(&peer),
                LookupStep::AskClosestPreceding(peer, id) => self.ask_closer(&peer, id),
            };
            match reply {
                Ok(text) => lookup.advance(&self.nodes[i], text),
                Err(e) => {
                    self.repair(addr);
                    return Err(e);
                }
            }
        }
        panic!("the lookup did not end");
    }

    fn find_successor(&mut self, via: &str, id: u64) -> Result<String, Unreachable> {
        let lookup = self.node(via).find_successor(id);
        self.drive(via, lookup)
    }

    fn start(&mut self, addr: &str, introducer: Option<&str>) {
        let node = match introducer {
            None => initialize_node(s(addr), None),
            Some(via) => {
                let successor = self.find_successor(via, id(addr)).expect("introducer is down");
                initialize_node(s(addr), Some(successor))
            }
        };
        self.nodes.push(node);
        self.up.push(true);
    }

    /// One round of stabilization of the node `addr`. Returns whether it
    /// completed.
    fn round(&mut self, addr: &str) -> bool {
        let i = self.at(addr);
        let finger = self.rounds % 6;
        self.rounds += 1;
        let mut round = self.nodes[i].begin_round_with(finger);
        for _ in 0..500 {
            let event = match round.step() {
                RoundStep::AskPredecessor(peer) => match self.ask_predecessor(&peer) {
                    Ok(text) => RoundEvent::Reply(text),
                    Err(_) => RoundEvent::Failed,
                },
                RoundStep::Probe(peer) => RoundEvent::Alive(self.alive(&peer)),
                RoundStep::Notify(peer) => match self.send_notify(&peer, addr) {
                    Ok(()) => RoundEvent::Delivered,
                    Err(_) => RoundEvent::Failed,
                },
                RoundStep::AskSuccessor(peer) => match self.ask_successor(&peer) {
                    Ok(text) => RoundEvent::Reply(text),
                    Err(_) => RoundEvent::Failed,
                },
                RoundStep::AskClosestPreceding(peer, id) => match self.ask_closer(&peer, id) {
                    Ok(text) => RoundEvent::Reply(text),
                    Err(_) => RoundEvent::Failed,
                },
                RoundStep::Finished => return true,
                RoundStep::Abandoned { repair } => {
                    if repair {
                        self.repair(addr);
                    }
                    return false;
                }
            };
            round = round.advance(&mut self.nodes[i], event);
        }
        panic!("the round did not end");
    }

    /// `times` rounds of every live node, in the order of arrival.
    fn stabilize(&mut self, times: usize) {
        for _ in 0..times {
            for i in 0..self.nodes.len() {
                if self.up[i] {
                    let addr = self.nodes[i].self_ip();
                    self.round(&addr);
                }
            }
        }
    }

    /// `POST /key/` on the node `via`: the text of the owner's identifier.
    fn insert(&mut self, via: &str, key: &str) -> Result<String, Unreachable> {
        if !self.alive(via) {
            return Err(Unreachable);
        }
        let owner = self.find_successor(via, id(key))?;
        let i = self.at(via);
        match self.nodes[i].insert(s(key), &owner) {
            InsertOutcome::Stored { owner_id, replicas } => {
                for peer in replicas {
                    if !self.alive(&peer) {
                        self.repair(via);
                        return Err(Unreachable);
                    }
                    let j = self.at(&peer);
                    self.nodes[j].insert_replica(s(key));
                }
                Ok(decimal_text(owner_id))
            }
            InsertOutcome::Forward { owner } => match self.insert(&owner, key) {
                Ok(text) => Ok(text),
                Err(e) => {
                    self.repair(via);
                    Err(e)
                }
            },
        }
    }

    /// `GET /key/:key` on the node `via`.
    fn contains(&mut self, via: &str, key: &str) -> Result<bool, Unreachable> {
        if !self.alive(via) {
            return Err(Unreachable);
        }
        let owner = self.find_successor(via, id(key))?;
        match self.node(via).contains(&s(key), &owner) {
            ContainsOutcome::Local { presence } => Ok(presence.is_present()),
            ContainsOutcome::Forward { owner } => match self.contains(&owner, key) {
                Ok(found) => Ok(found),
                Err(e) => {
                    self.repair(via);
                    Err(e)
                }
            },
        }
    }

    /// `GET /ring` on the node `via`.
    fn ring(&mut self, via: &str) -> Result<Vec<VisInfo>, Unreachable> {
        let mut walk = self.node(via).ring_info();
        while let Some(peer) = walk.pending() {
            match self.ask_successor(&peer) {
                Ok(text) => walk.record(text),
                Err(e) => {
                    self.repair(via);
                    return Err(e);
                }
            }
        }
        Ok(walk.hops())
    }

    /// A key whose identifier lies in `(after, upto]`.
    fn key_in_arc(after: u64, upto: u64) -> String {
        for i in 0..10000 {
            let key = format!("key{}", i);
            let d = (get_identifier(&key) + 64 - after) % 64;
            if 0 < d && d <= (upto + 64 - after) % 64 {
                return key;
            }
        }
        panic!("no key in the arc");
    }
}

fn ring_of(addrs: &[&str]) -> Net {
    let mut net = Net::new();
    net.start(addrs[0], None);
    for addr in &addrs[1..] {
        net.start(addr, Some(addrs[0]));
        net.stabilize(3);
    }
    net.stabilize(6);
    net
}

#[test]
fn addresses_have_the_identifiers_the_scenarios_assume() {
    assert_eq!(id(A), 20);
    assert_eq!(id(E), 28);
    assert_eq!(id(B), 34);
    assert_eq!(id(C), 40);
    assert_eq!(id(D), 62);
}

#[test]
fn single_node_ring() {
    let mut net = Net::new();
    net.start(A, None);
    assert_eq!(net.ask_successor(A).unwrap(), A);
    assert_eq!(net.insert(A, "hello").unwrap(), "20");
    assert_eq!(net.contains(A, "hello"), Ok(true));
    assert_eq!(net.contains(A, "world"), Ok(false));
    net.stabilize(3);
    assert_eq!(net.node(A).get_successor(), A);
    assert_eq!(net.node(A).get_predecessor(), A);
    assert_eq!(net.contains(A, "hello"), Ok(true));
    assert_eq!(net.ring(A).unwrap(), vec![VisInfo::new(20, 20)]);
}

#[test]
fn two_node_join() {
    let mut net = Net::new();
    net.start(A, None);
    net.start(B, Some(A));
    assert_eq!(net.node(B).get_successor(), A);
    net.stabilize(3);
    assert_eq!(net.node(A).get_successor(), B);
    assert_eq!(net.node(A).get_predecessor(), B);
    assert_eq!(net.node(B).get_successor(), A);
    assert_eq!(net.node(B).get_predecessor(), A);
    assert_eq!(net.ring(A).unwrap(), vec![VisInfo::new(20, 34), VisInfo::new(34, 20)]);
    assert_eq!(net.ring(B).unwrap(), vec![VisInfo::new(34, 20), VisInfo::new(20, 34)]);
    assert_eq!(net.node(A).successor_list()[0], B);
    assert_eq!(net.node(B).successor_list()[0], A);
}

#[test]
fn routed_lookup() {
    let mut net = ring_of(&[A, B]);
    // B's arc is (20, 34].
    for round in 0..5 {
        let key = format!("{}-{}", Net::key_in_arc(20, 34), round);
        let key_id = id(&key);
        let in_arc = 20 < key_id && key_id <= 34;
        let owner = if in_arc { B } else { A };
        let owner_id = if in_arc { "34" } else { "20" };
        assert_eq!(net.find_successor(A, key_id).unwrap(), owner);
        assert_eq!(net.insert(A, &key).unwrap(), owner_id);
        assert!(net.node(owner).info().hash_set.contains(&key));
        assert_eq!(net.contains(A, &key), Ok(true));
        assert_eq!(net.contains(B, &key), Ok(true));
    }
    let key = Net::key_in_arc(20, 34);
    assert_eq!(net.insert(A, &key).unwrap(), "34");
    assert!(net.node(B).info().hash_set.contains(&key));
    assert!(!net.node(A).info().hash_set.contains(&key));
    assert_eq!(net.contains(A, &key), Ok(true));
}

#[test]
fn every_identifier_is_routed_to_its_owner_from_everywhere() {
    let mut net = ring_of(&[A, B, C, D, E]);
    let ring = [(20, A), (28, E), (34, B), (40, C), (62, D)];
    for target in 0..64u64 {
        let owner = ring
            .iter()
            .find(|(node_id, _)| target <= *node_id)
            .map(|(_, addr)| *addr)
            .unwrap_or(A);
        for via in [A, B, C, D, E] {
            assert_eq!(net.find_successor(via, target).unwrap(), owner, "{} via {}", target, via);
        }
    }
}

#[test]
fn five_nodes_settle_into_a_ring_in_identifier_order() {
    let net = ring_of(&[C, A, D, B, E]);
    let order = [A, E, B, C, D];
    for i in 0..5 {
        let next = order[(i + 1) % 5];
        let before = order[(i + 4) % 5];
        assert_eq!(net.node(order[i]).get_successor(), next, "successor of {}", order[i]);
        assert_eq!(net.node(order[i]).get_predecessor(), before, "predecessor of {}", order[i]);
        assert_eq!(net.node(order[i]).successor_list()[0], next);
    }
}

#[test]
fn five_node_ring_is_drawn_as_one_cycle() {
    let mut net = ring_of(&[C, A, D, B, E]);
    assert_eq!(
        net.ring(A).unwrap(),
        vec![
            VisInfo::new(20, 28),
            VisInfo::new(28, 34),
            VisInfo::new(34, 40),
            VisInfo::new(40, 62),
            VisInfo::new(62, 20),
        ]
    );
}

#[test]
fn settled_ring_has_correct_fingers() {
    let net = ring_of(&[A, B, C, D, E]);
    let ring = [(20u64, A), (28, E), (34, B), (40, C), (62, D)];
    for (node_id, addr) in ring {
        let info = net.node(addr).info();
        for k in 0..6 {
            let start = (node_id + (1 << k)) % 64;
            let owner = ring
                .iter()
                .find(|(other, _)| start <= *other)
                .map(|(_, a)| *a)
                .unwrap_or(A);
            assert_eq!(info.finger_table[k].start, start);
            assert_eq!(info.finger_table[k].successor, owner, "finger {} of {}", k, addr);
        }
    }
}

#[test]
fn replica_on_next_successor() {
    let mut net = ring_of(&[A, B, C]);
    assert_eq!(net.node(B).get_successor(), C);
    assert!(!net.node(B).successor_list().is_empty());
    let key = Net::key_in_arc(20, 34);
    assert_eq!(net.insert(A, &key).unwrap(), "34");
    assert!(net.node(B).info().hash_set.contains(&key));
    let at_c = net.node(C).info();
    assert!(at_c.hash_set.contains(&key) || at_c.replica_set.contains(&key));
}

#[test]
fn inserting_twice_leaves_the_ring_as_inserting_once() {
    let mut net = ring_of(&[A, B, C]);
    let key = Net::key_in_arc(20, 34);
    net.insert(A, &key).unwrap();
    let once: Vec<_> = [A, B, C]
        .iter()
        .map(|addr| {
            let info = net.node(addr).info();
            (info.hash_set, info.replica_set, info.predecessor, info.successor_list)
        })
        .collect();
    net.insert(C, &key).unwrap();
    net.insert(A, &key).unwrap();
    let twice: Vec<_> = [A, B, C]
        .iter()
        .map(|addr| {
            let info = net.node(addr).info();
            (info.hash_set, info.replica_set, info.predecessor, info.successor_list)
        })
        .collect();
    assert_eq!(once, twice);
}

#[test]
fn inserted_key_is_found_from_every_node() {
    let mut net = ring_of(&[A, B, C, D, E]);
    for i in 0..40 {
        let key = format!("item-{}", i);
        let via = [A, B, C, D, E][i % 5];
        net.insert(via, &key).unwrap();
        for from in [A, B, C, D, E] {
            assert_eq!(net.contains(from, &key), Ok(true), "{} from {}", key, from);
        }
    }
    assert_eq!(net.contains(A, "never inserted"), Ok(false));
}

#[test]
fn stored_keys_lie_in_the_arc_of_their_node() {
    let mut net = ring_of(&[A, B, C, D, E]);
    for i in 0..60 {
        net.insert(A, &format!("item-{}", i)).unwrap();
    }
    for addr in [A, B, C, D, E] {
        let info = net.node(addr).info();
        for key in &info.hash_set {
            let d_total = (info.self_id + 64 - info.predecessor_id) % 64;
            let d_key = (id(key) + 64 - info.predecessor_id) % 64;
            assert!(0 < d_key && d_key <= d_total, "{} at {}", key, addr);
        }
    }
}

#[test]
fn successor_failure() {
    let mut net = ring_of(&[A, B, C]);
    assert_eq!(net.node(A).get_successor(), B);
    assert_eq!(net.node(B).get_successor(), C);
    assert_eq!(net.node(C).get_successor(), A);
    net.kill(B);
    assert!(!net.round(A));
    assert_eq!(net.node(A).get_successor(), C);
    net.stabilize(2);
    assert_eq!(net.node(A).get_successor(), C);
    assert_eq!(net.node(C).get_predecessor(), A);
    assert_eq!(net.ring(A).unwrap(), vec![VisInfo::new(20, 40), VisInfo::new(40, 20)]);
    assert_eq!(net.ring(C).unwrap(), vec![VisInfo::new(40, 20), VisInfo::new(20, 40)]);
}

#[test]
fn ring_cannot_be_drawn_through_a_dead_node() {
    let mut net = ring_of(&[A, B, C]);
    net.kill(B);
    assert_eq!(net.ring(A), Err(Unreachable));
    assert_eq!(net.node(A).get_successor(), C);
    assert_eq!(net.ring(A).unwrap(), vec![VisInfo::new(20, 40), VisInfo::new(40, 20)]);
}

#[test]
fn stale_predecessor_reset() {
    let mut net = ring_of(&[A, B, C]);
    assert_eq!(net.node(C).get_predecessor(), B);
    net.kill(B);
    net.repair(C);
    assert_eq!(net.node(C).get_predecessor(), C);
    assert_eq!(net.node(C).get_successor(), A);
}

#[test]
fn key_survives_the_failure_of_its_owner() {
    let mut net = ring_of(&[A, B, C]);
    let key = Net::key_in_arc(20, 34);
    assert_eq!(net.insert(A, &key).unwrap(), "34");
    net.kill(B);
    let _ = net.contains(A, &key);
    net.stabilize(3);
    assert_eq!(net.contains(A, &key), Ok(true));
    assert_eq!(net.contains(C, &key), Ok(true));
}

#[test]
fn test_immediate_successor() {
    // Five nodes, started one after the other in the order of their
    // identifiers, each joining through the first.
    let names = [A, E, B, C, D];
    let num_containers = 5;
    let mut net = Net::new();
    net.start(names[0], None);
    for i in 1..num_containers {
        net.start(names[i], Some(names[0]));
        net.stabilize(3);
    }
    net.stabilize(6);
    for i in 0..num_containers {
        let result = net.ask_successor(names[i]).unwrap();
        let next_num = if i == num_containers - 1 { 0 } else { i + 1 };
        let expected_successor = names[next_num];
        assert_eq!(
            result, expected_successor,
            "node{} reported an incorrect successor (actual=left, expected=right)",
            i
        );
    }
}
