use crust::finger::FingerTableEntry;
use crust::interval::Bracket;
use crust::interval::Interval;
use crust::keys::KeySet;
use crust::node::init_finger_table;
use crust::node::initialize_node;
use crust::node::join;
use crust::node::ChordNode;
use crust::node::ContainsOutcome;
use crust::node::InsertOutcome;
use crust::node::KeyPresence;
use crust::ring::get_identifier;
use crust::ring::get_start;
use crust::ring::InputError;

fn s(text: &str) -> String {
    text.to_string()
}

fn id(text: &str) -> u64 {
    get_identifier(&s(text))
}

/// An address whose identifier is `wanted`.
fn addr_with_id(wanted: u64) -> String {
    for i in 0..100000 {
        let addr = format!("10.0.{}.{}", i / 250, i % 250 + 1);
        if get_identifier(&addr) == wanted {
            return addr;
        }
    }
    panic!("no address with identifier {}", wanted);
}

#[test]
fn solo_node_points_at_itself_everywhere() {
    let node = initialize_node(s("10.0.0.1"), None);
    assert_eq!(node.self_ip(), "10.0.0.1");
    assert_eq!(node.self_id(), 40);
    assert_eq!(node.get_successor(), "10.0.0.1");
    assert_eq!(node.get_predecessor(), "10.0.0.1");
    assert!(node.successor_list().is_empty());
    let info = node.info();
    assert_eq!(info.finger_table.len(), 6);
    for finger in &info.finger_table {
        assert_eq!(finger.successor, "10.0.0.1");
        assert_eq!(finger.successor_id, 40);
    }
    assert!(info.hash_set.is_empty());
    assert!(info.replica_set.is_empty());
}

#[test]
fn joined_node_points_entry_zero_at_its_successor() {
    let node = initialize_node(s("10.0.0.2"), Some(s("10.0.0.1")));
    assert_eq!(node.get_successor(), "10.0.0.1");
    assert_eq!(node.get_predecessor(), "10.0.0.2");
    let info = node.info();
    assert_eq!(info.finger_table[0].successor, "10.0.0.1");
    assert_eq!(info.finger_table[0].successor_id, 40);
    for k in 1..6 {
        assert_eq!(info.finger_table[k].successor, "10.0.0.2");
        assert_eq!(info.finger_table[k].successor_id, 34);
    }
    let same = join(s("10.0.0.2"), s("10.0.0.1"));
    assert_eq!(same.get_successor(), "10.0.0.1");
    let same = init_finger_table(s("10.0.0.2"), s("10.0.0.1"));
    assert_eq!(same.get_successor(), "10.0.0.1");
    assert_eq!(same.get_predecessor(), "10.0.0.2");
}

#[test]
fn every_finger_starts_at_id_plus_power_of_two() {
    for addr in ["10.0.0.1", "10.0.0.2", "10.0.0.5", "172.17.0.2", "::1"] {
        let n = id(addr);
        let mut node = initialize_node(s(addr), Some(s("10.0.0.9")));
        node.update_successor(s("10.0.0.7"));
        node.point_finger(3, s("10.0.0.8"));
        node.notify(s("10.0.0.3"), false);
        let _ = node.update_finger_table(s("10.0.0.4"), 2);
        let info = node.info();
        for k in 0..6usize {
            let start = (n + (1u64 << k)) % 64;
            let next = (n + (1u64 << (k + 1))) % 64;
            assert_eq!(node.finger_start(k), start);
            assert_eq!(info.finger_table[k].start, start);
            assert_eq!(info.finger_table[k].interval, format!("[{},{})", start, next));
            assert_eq!(info.finger_table[k].successor_id, id(&info.finger_table[k].successor));
        }
    }
}

#[test]
fn node_made_of_parts() {
    let n = id("10.0.0.1");
    let mut table = Vec::new();
    for k in 0..6u32 {
        let start = get_start(n, k);
        let next = get_start(n, k + 1);
        let interval = Interval::new(Bracket::Closed, start, next, Bracket::Open);
        table.push(FingerTableEntry::new(start, interval, id("10.0.0.2"), s("10.0.0.2")));
    }
    let mut keys = KeySet::new();
    keys.insert(s("a"));
    let node = ChordNode::new(table, keys, s("10.0.0.1"), s("10.0.0.3"));
    assert_eq!(node.get_successor(), "10.0.0.2");
    assert_eq!(node.get_predecessor(), "10.0.0.3");
    assert_eq!(node.info().hash_set, vec![s("a")]);
    let entry = FingerTableEntry::fresh(n, 2, s("10.0.0.2"));
    assert_eq!(entry.start(), (n + 4) % 64);
    assert_eq!(entry.successor_id(), 34);
    assert_eq!(entry.node_ip(), "10.0.0.2");
    assert_eq!(entry.interval().to_text(), format!("[{},{})", (n + 4) % 64, (n + 8) % 64));
    assert_eq!(entry.pointing_at(s("10.0.0.1")).successor_id(), 40);
}

#[test]
fn pointers_are_overwritten() {
    let mut node = initialize_node(s("10.0.0.1"), None);
    node.update_successor(s("10.0.0.2"));
    assert_eq!(node.get_successor(), "10.0.0.2");
    assert_eq!(node.info().finger_table[0].successor_id, 34);
    node.update_predecessor(s("10.0.0.3"));
    assert_eq!(node.get_predecessor(), "10.0.0.3");
    assert_eq!(node.info().predecessor_id, 20);
    node.replace_successor_list(vec![s("10.0.0.2"), s("10.0.0.3")]);
    assert_eq!(node.successor_list(), vec![s("10.0.0.2"), s("10.0.0.3")]);
    assert_eq!(node.info().successor_list, vec![(s("10.0.0.2"), 34), (s("10.0.0.3"), 20)]);
}

#[test]
fn closest_preceding_finger_is_the_highest_that_precedes() {
    // self 40; fingers at ids 50, 60 and 10.
    let own = addr_with_id(40);
    let a50 = addr_with_id(50);
    let a60 = addr_with_id(60);
    let a10 = addr_with_id(10);
    let mut node = initialize_node(own.clone(), Some(a50.clone()));
    node.point_finger(1, a50.clone());
    node.point_finger(2, a60.clone());
    node.point_finger(5, a10.clone());
    // (40, 20): 50, 60 and 10 all precede; entry 5 is the highest.
    assert_eq!(node.closest_preceding(20), a10);
    // (40, 5): 50 and 60 precede, 10 does not; entry 2 is the highest.
    assert_eq!(node.closest_preceding(5), a60);
    // (40, 60): only 50 precedes (60 is the open end).
    assert_eq!(node.closest_preceding(60), a50);
    // (40, 50) and (40, 45): nothing strictly inside.
    assert_eq!(node.closest_preceding(50), own);
    assert_eq!(node.closest_preceding(45), own);
    // (40, 40) is the whole ring but 40.
    assert_eq!(node.closest_preceding(40), a10);
}

#[test]
fn closest_preceding_finger_of_a_solo_node_is_itself() {
    let node = initialize_node(s("10.0.0.1"), None);
    for target in 0..64 {
        assert_eq!(node.closest_preceding(target), "10.0.0.1");
    }
}

#[test]
fn closest_preceding_finger_reads_its_identifier_from_text() {
    let own = addr_with_id(40);
    let a50 = addr_with_id(50);
    let node = initialize_node(own.clone(), Some(a50.clone()));
    assert_eq!(node.closest_preceding_finger(&s("60")), Ok(a50));
    assert_eq!(node.closest_preceding_finger(&s("45")), Ok(own));
    assert_eq!(node.closest_preceding_finger(&s("64")), Err(InputError::OutOfRing));
    assert_eq!(node.closest_preceding_finger(&s("sixty")), Err(InputError::Malformed));
    assert_eq!(node.closest_preceding_finger(&s("")), Err(InputError::Malformed));
}

#[test]
fn finger_is_replaced_by_a_node_before_it() {
    let own = addr_with_id(40);
    let a60 = addr_with_id(60);
    let a50 = addr_with_id(50);
    let a10 = addr_with_id(10);
    let pred = addr_with_id(30);
    let mut node = initialize_node(own.clone(), Some(a60.clone()));
    node.update_predecessor(pred.clone());
    node.point_finger(3, a60.clone());
    // 50 lies in [40, 60): replaced, and passed on to the predecessor.
    assert_eq!(node.update_finger_table(a50.clone(), 3), Some(pred.clone()));
    assert_eq!(node.info().finger_table[3].successor, a50);
    assert_eq!(node.info().finger_table[3].successor_id, 50);
    // 10 does not lie in [40, 50): nothing happens.
    assert_eq!(node.update_finger_table(a10.clone(), 3), None);
    assert_eq!(node.info().finger_table[3].successor, a50);
    // 50 does not lie in [40, 50) either.
    assert_eq!(node.update_finger_table(a50.clone(), 3), None);
}

#[test]
fn finger_offer_is_not_passed_on_to_the_offered_node() {
    let own = addr_with_id(40);
    let a60 = addr_with_id(60);
    let a50 = addr_with_id(50);
    let mut node = initialize_node(own.clone(), Some(a60.clone()));
    node.update_predecessor(a50.clone());
    assert_eq!(node.update_finger_table(a50.clone(), 0), None);
    assert_eq!(node.get_successor(), a50);
}

#[test]
fn placeholder_finger_gives_way_to_any_node() {
    // Entry 2 of a joined node points at the node itself: [40, 40) is the ring.
    let own = addr_with_id(40);
    let a60 = addr_with_id(60);
    let a10 = addr_with_id(10);
    let mut node = initialize_node(own.clone(), Some(a60));
    // The predecessor is still unknown, so the offer goes to the node itself,
    assert_eq!(node.update_finger_table(a10.clone(), 2), Some(own.clone()));
    assert_eq!(node.info().finger_table[2].successor, a10);
    // where it ends: 10 does not lie in [40, 10).
    assert_eq!(node.update_finger_table(a10.clone(), 2), None);
}

#[test]
fn notify_takes_a_node_between_predecessor_and_self() {
    let own = addr_with_id(40);
    let a20 = addr_with_id(20);
    let a30 = addr_with_id(30);
    let a50 = addr_with_id(50);
    let mut node = initialize_node(own.clone(), None);
    // Unknown predecessor: anyone is taken.
    node.notify(a20.clone(), true);
    assert_eq!(node.get_predecessor(), a20);
    // 30 lies in (20, 40).
    node.notify(a30.clone(), true);
    assert_eq!(node.get_predecessor(), a30);
    // 20 does not lie in (30, 40): no way back.
    node.notify(a20.clone(), true);
    assert_eq!(node.get_predecessor(), a30);
    // 50 does not lie in (30, 40).
    node.notify(a50.clone(), true);
    assert_eq!(node.get_predecessor(), a30);
    // A dead predecessor gives way to anyone.
    node.notify(a50.clone(), false);
    assert_eq!(node.get_predecessor(), a50);
}

#[test]
fn repeated_notify_changes_nothing_more() {
    let own = addr_with_id(40);
    let a20 = addr_with_id(20);
    let a30 = addr_with_id(30);
    let mut node = initialize_node(own, None);
    node.notify(a20.clone(), true);
    node.notify(a30.clone(), true);
    for _ in 0..5 {
        node.notify(a30.clone(), true);
        assert_eq!(node.get_predecessor(), a30);
        node.notify(a30.clone(), false);
        assert_eq!(node.get_predecessor(), a30);
    }
}

#[test]
fn stabilize_adopts_a_live_node_in_between() {
    let own = addr_with_id(40);
    let a60 = addr_with_id(60);
    let a50 = addr_with_id(50);
    let a10 = addr_with_id(10);
    let mut node = initialize_node(own.clone(), Some(a60.clone()));
    // The successor names this node: nothing changes.
    assert_eq!(node.stabilize(&a60, &own, true), a60);
    // A node outside (40, 60) is not adopted.
    assert_eq!(node.stabilize(&a60, &a10, true), a60);
    // A dead node is not adopted.
    assert_eq!(node.stabilize(&a60, &a50, false), a60);
    assert_eq!(node.get_successor(), a60);
    // A live node inside is.
    assert_eq!(node.stabilize(&a60, &a50, true), a50);
    assert_eq!(node.get_successor(), a50);
    assert_eq!(node.info().finger_table[0].successor_id, 50);
}

#[test]
fn owner_stores_the_key_and_names_its_replicas() {
    let mut node = initialize_node(s("10.0.0.1"), None);
    node.replace_successor_list(vec![s("10.0.0.2"), s("10.0.0.3")]);
    match node.insert(s("hello"), &s("10.0.0.1")) {
        InsertOutcome::Stored { owner_id, replicas } => {
            assert_eq!(owner_id, 40);
            assert_eq!(replicas, vec![s("10.0.0.2"), s("10.0.0.3")]);
        }
        InsertOutcome::Forward { .. } => panic!("the owner must store the key"),
    }
    assert_eq!(node.info().hash_set, vec![s("hello")]);
    match node.contains(&s("hello"), &s("10.0.0.1")) {
        ContainsOutcome::Local { presence } => {
            assert_eq!(presence, KeyPresence::Owned);
            assert!(presence.is_present());
        }
        ContainsOutcome::Forward { .. } => panic!("the owner must answer"),
    }
    match node.contains(&s("other"), &s("10.0.0.1")) {
        ContainsOutcome::Local { presence } => {
            assert_eq!(presence, KeyPresence::Absent);
            assert!(!presence.is_present());
        }
        ContainsOutcome::Forward { .. } => panic!("the owner must answer"),
    }
}

#[test]
fn another_owner_gets_the_request_passed_on() {
    let mut node = initialize_node(s("10.0.0.1"), Some(s("10.0.0.2")));
    match node.insert(s("hello"), &s("10.0.0.2")) {
        InsertOutcome::Forward { owner } => assert_eq!(owner, "10.0.0.2"),
        InsertOutcome::Stored { .. } => panic!("only the owner stores"),
    }
    assert!(node.info().hash_set.is_empty());
    match node.contains(&s("hello"), &s("10.0.0.2")) {
        ContainsOutcome::Forward { owner } => assert_eq!(owner, "10.0.0.2"),
        ContainsOutcome::Local { .. } => panic!("only the owner answers"),
    }
}

#[test]
fn inserting_twice_is_inserting_once() {
    let mut node = initialize_node(s("10.0.0.1"), None);
    node.insert(s("a"), &s("10.0.0.1"));
    node.insert(s("b"), &s("10.0.0.1"));
    let once = node.info();
    node.insert(s("a"), &s("10.0.0.1"));
    node.insert(s("b"), &s("10.0.0.1"));
    let twice = node.info();
    assert_eq!(once.hash_set, vec![s("a"), s("b")]);
    assert_eq!(twice.hash_set, once.hash_set);
    assert_eq!(twice.replica_set, once.replica_set);
    assert_eq!(twice.predecessor, once.predecessor);
    assert_eq!(twice.successor_list, once.successor_list);
}

#[test]
fn replica_is_found_by_the_new_owner() {
    let mut node = initialize_node(s("10.0.0.1"), None);
    node.insert_replica(s("hello"));
    node.insert_replica(s("hello"));
    assert_eq!(node.info().replica_set, vec![s("hello")]);
    assert!(node.info().hash_set.is_empty());
    match node.contains(&s("hello"), &s("10.0.0.1")) {
        ContainsOutcome::Local { presence } => {
            assert_eq!(presence, KeyPresence::Replica);
            assert!(presence.is_present());
        }
        ContainsOutcome::Forward { .. } => panic!("the owner must answer"),
    }
}

#[test]
fn key_set_holds_each_key_once() {
    let mut keys = KeySet::new();
    assert_eq!(keys.len(), 0);
    assert!(!keys.contains(&s("a")));
    assert!(keys.insert(s("a")));
    assert!(keys.insert(s("b")));
    assert!(!keys.insert(s("a")));
    assert!(keys.insert(s("")));
    assert_eq!(keys.len(), 3);
    assert!(keys.contains(&s("a")));
    assert!(keys.contains(&s("")));
    assert!(!keys.contains(&s("c")));
    assert_eq!(keys.to_vec(), vec![s("a"), s("b"), s("")]);
}

#[test]
fn snapshot_shows_identifiers_of_all_pointers() {
    let mut node = initialize_node(s("10.0.0.1"), Some(s("10.0.0.2")));
    node.update_predecessor(s("10.0.0.3"));
    node.replace_successor_list(vec![s("10.0.0.2")]);
    node.insert(s("k"), &s("10.0.0.1"));
    let info = node.info();
    assert_eq!(info.self_ip, "10.0.0.1");
    assert_eq!(info.self_id, 40);
    assert_eq!(info.predecessor, "10.0.0.3");
    assert_eq!(info.predecessor_id, 20);
    assert_eq!(info.finger_table[0].start, 41);
    assert_eq!(info.finger_table[0].interval, "[41,42)");
    assert_eq!(info.finger_table[5].start, 8);
    assert_eq!(info.finger_table[5].interval, "[8,40)");
    assert_eq!(info.finger_table[0].successor, "10.0.0.2");
    assert_eq!(info.finger_table[0].successor_id, 34);
    assert_eq!(info.successor_list, vec![(s("10.0.0.2"), 34)]);
    assert_eq!(info.hash_set, vec![s("k")]);
}
