//! The state of one node and the decisions it takes on its own.

use crate::finger::FingerTableEntry;
use crate::finger::FingerView;
use crate::interval::Bracket;
use crate::interval::Interval;
use crate::interval::IntervalView;
use crate::keys::KeySet;
use crate::ring::finger_start;
use crate::ring::get_identifier;
use crate::ring::identifier;
use crate::ring::identifier_text;
use crate::ring::parse_identifier;
use crate::ring::InputError;
use crate::ring::FINGERS;
use crate::ring::M;
use crate::text::clone_texts;
use crate::text::texts;
use vstd::prelude::*;

verus! {

/// The mathematical value of a [`ChordNode`].
pub struct NodeView {
    /// The node's own address.
    pub self_addr: Seq<char>,
    /// The finger table, entry 0 first.
    pub fingers: Seq<FingerView>,
    /// The predecessor; the node's own address while it is unknown.
    pub predecessor: Seq<char>,
    /// Known successors in ring order, for failover.
    pub successor_list: Seq<Seq<char>>,
    /// The keys the node owns.
    pub owned_keys: Set<Seq<char>>,
    /// The keys the node holds as a replica.
    pub replica_keys: Set<Seq<char>>,
}

impl NodeView {
    /// The node's ring identifier.
    pub open spec fn id(self) -> int {
        identifier(self.self_addr) as int
    }

    /// The table has `FINGERS` entries, entry `k` starts at
    /// `(id + 2^k) mod M`, and the stored sets are finite.
    pub open spec fn wf(self) -> bool {
        &&& self.fingers.len() == FINGERS
        &&& forall|k: int|
            0 <= k < FINGERS ==> (#[trigger] self.fingers[k]).is_finger_of(self.id(), k as nat)
        &&& self.successor_list.len() <= FINGERS
        &&& self.owned_keys.finite()
        &&& self.replica_keys.finite()
    }

    /// The immediate successor: what entry 0 points at.
    pub open spec fn successor(self) -> Seq<char> {
        self.fingers[0].successor
    }

    /// A node that has just joined: entry 0 points at `successor`, every
    /// other entry at the node itself, and the predecessor is unknown.
    pub open spec fn joined(self_addr: Seq<char>, successor: Seq<char>) -> NodeView {
        NodeView {
            self_addr,
            fingers: Seq::new(
                FINGERS as nat,
                |k: int|
                    FingerView::fresh(
                        identifier(self_addr) as int,
                        k as nat,
                        if k == 0 {
                            successor
                        } else {
                            self_addr
                        },
                    ),
            ),
            predecessor: self_addr,
            successor_list: Seq::empty(),
            owned_keys: Set::empty(),
            replica_keys: Set::empty(),
        }
    }

    /// A ring of one: every pointer is the node itself.
    pub open spec fn solo(self_addr: Seq<char>) -> NodeView {
        NodeView::joined(self_addr, self_addr)
    }

    /// The node with entry `k` pointing at `addr`.
    pub open spec fn with_finger(self, k: int, addr: Seq<char>) -> NodeView {
        NodeView { fingers: self.fingers.update(k, self.fingers[k].pointing_at(addr)), ..self }
    }

    /// The node with `addr` as its successor.
    pub open spec fn with_successor(self, addr: Seq<char>) -> NodeView {
        self.with_finger(0, addr)
    }

    /// The node with `addr` as its predecessor.
    pub open spec fn with_predecessor(self, addr: Seq<char>) -> NodeView {
        NodeView { predecessor: addr, ..self }
    }

    /// The node with `list` as its successor list.
    pub open spec fn with_successor_list(self, list: Seq<Seq<char>>) -> NodeView {
        NodeView { successor_list: list, ..self }
    }

    /// The node owning `key` as well.
    pub open spec fn with_owned(self, key: Seq<char>) -> NodeView {
        NodeView { owned_keys: self.owned_keys.insert(key), ..self }
    }

    /// The node holding a replica of `key` as well.
    pub open spec fn with_replica(self, key: Seq<char>) -> NodeView {
        NodeView { replica_keys: self.replica_keys.insert(key), ..self }
    }

    /// Whether the node that entry `k` points at lies strictly between this
    /// node and `id`, going forward.
    pub open spec fn finger_precedes(self, k: int, id: int) -> bool {
        (IntervalView {
            bracket1: Bracket::Open,
            val1: self.id(),
            val2: id,
            bracket2: Bracket::Open,
        }).contains(self.fingers[k].successor_id)
    }

    /// The scan of entries `upto - 1` down to 0 for the first that precedes
    /// `id`; the node's own address where none does.
    pub open spec fn scan_fingers(self, id: int, upto: int) -> Seq<char>
        decreases upto,
    {
        if upto <= 0 {
            self.self_addr
        } else if self.finger_precedes(upto - 1, id) {
            self.fingers[upto - 1].successor
        } else {
            self.scan_fingers(id, upto - 1)
        }
    }

    /// The address of the highest finger that lies strictly between this
    /// node and `id`; the node's own address where there is none.
    pub open spec fn closest_preceding_finger(self, id: int) -> Seq<char> {
        self.scan_fingers(id, self.fingers.len() as int)
    }

    /// Whether `s` would be a better entry `k`: its identifier lies from
    /// this node's identifier up to, but not at, the identifier that entry
    /// `k` now points at.
    pub open spec fn finger_improves(self, k: int, s: Seq<char>) -> bool {
        (IntervalView {
            bracket1: Bracket::Closed,
            val1: self.id(),
            val2: self.fingers[k].successor_id,
            bracket2: Bracket::Open,
        }).contains(identifier(s) as int)
    }

    /// The node after it has been offered `s` for entry `k`.
    pub open spec fn offered_finger(self, s: Seq<char>, k: int) -> NodeView {
        if self.finger_improves(k, s) {
            self.with_finger(k, s)
        } else {
            self
        }
    }

    /// The node to which the offer of `s` for entry `k` is passed on: the
    /// predecessor, if the entry was replaced and the predecessor is not
    /// `s` itself.
    pub open spec fn offer_passed_to(self, s: Seq<char>, k: int) -> Option<Seq<char>> {
        if self.finger_improves(k, s) && self.predecessor != s {
            Some(self.predecessor)
        } else {
            None
        }
    }

    /// Whether `p`, which the successor `s` named as its predecessor, is a
    /// better successor for this node: it is alive, it is not this node,
    /// and it lies strictly between this node and `s`.
    pub open spec fn better_successor(self, s: Seq<char>, p: Seq<char>, alive: bool) -> bool {
        &&& alive
        &&& p != self.self_addr
        &&& (IntervalView {
            bracket1: Bracket::Open,
            val1: self.id(),
            val2: identifier(s) as int,
            bracket2: Bracket::Open,
        }).contains(identifier(p) as int)
    }

    /// The node after it has learnt that its successor `s` has the
    /// predecessor `p`.
    pub open spec fn stabilized(self, s: Seq<char>, p: Seq<char>, alive: bool) -> NodeView {
        if self.better_successor(s, p, alive) {
            self.with_successor(p)
        } else {
            self
        }
    }

    /// Whether a node that claims to be the predecessor is taken: the
    /// present predecessor is dead or unknown, or the claimant lies strictly
    /// between it and this node.
    pub open spec fn accepts_predecessor(self, other: Seq<char>, predecessor_alive: bool) -> bool {
        ||| !predecessor_alive
        ||| self.predecessor == self.self_addr
        ||| (IntervalView {
            bracket1: Bracket::Open,
            val1: identifier(self.predecessor) as int,
            val2: self.id(),
            bracket2: Bracket::Open,
        }).contains(identifier(other) as int)
    }

    /// The node after `other` has claimed to be its predecessor.
    pub open spec fn notified(self, other: Seq<char>, predecessor_alive: bool) -> NodeView {
        if self.accepts_predecessor(other, predecessor_alive) {
            self.with_predecessor(other)
        } else {
            self
        }
    }

    /// The node after an insertion of `key` that routing has assigned to
    /// `owner`: the key is stored if the node is the owner itself.
    pub open spec fn inserted(self, key: Seq<char>, owner: Seq<char>) -> NodeView {
        if owner == self.self_addr {
            self.with_owned(key)
        } else {
            self
        }
    }

    /// Whether the identifier `id` falls in the arc this node is
    /// responsible for, from its predecessor (excluded) to itself.
    pub open spec fn owns(self, id: int) -> bool {
        (IntervalView {
            bracket1: Bracket::Open,
            val1: identifier(self.predecessor) as int,
            val2: self.id(),
            bracket2: Bracket::Closed,
        }).contains(id)
    }

    /// Every owned key falls in the arc the node is responsible for.
    pub open spec fn keys_in_arc(self) -> bool {
        forall|key: Seq<char>| #[trigger]
            self.owned_keys.contains(key) ==> self.owns(identifier(key) as int)
    }

    /// What the node knows of `key`.
    pub open spec fn presence(self, key: Seq<char>) -> KeyPresence {
        if self.owned_keys.contains(key) {
            KeyPresence::Owned
        } else if self.replica_keys.contains(key) {
            KeyPresence::Replica
        } else {
            KeyPresence::Absent
        }
    }

    /// Inserting a key twice leaves the node as inserting it once does.
    pub proof fn lemma_insert_twice(self, key: Seq<char>, owner: Seq<char>)
        ensures
            self.inserted(key, owner).inserted(key, owner) == self.inserted(key, owner),
    {
        assert(self.owned_keys.insert(key).insert(key) =~= self.owned_keys.insert(key));
    }

    /// A key that has been inserted at its owner is found there.
    pub proof fn lemma_inserted_is_present(self, key: Seq<char>)
        ensures
            self.inserted(key, self.self_addr).presence(key) == KeyPresence::Owned,
            self.with_replica(key).presence(key) != KeyPresence::Absent,
    {
    }

    /// A node that stores a key of its own arc still holds only keys of
    /// its arc; a node that hands the key on is unchanged.
    pub proof fn lemma_insert_keeps_arc(self, key: Seq<char>, owner: Seq<char>)
        requires
            self.keys_in_arc(),
            owner == self.self_addr ==> self.owns(identifier(key) as int),
        ensures
            self.inserted(key, owner).keys_in_arc(),
    {
    }

    /// Fingers, successor list and replicas have no part in which keys a
    /// node is responsible for.
    pub proof fn lemma_pointers_keep_arc(self, k: int, addr: Seq<char>, list: Seq<Seq<char>>)
        requires
            self.keys_in_arc(),
        ensures
            self.with_finger(k, addr).keys_in_arc(),
            self.with_successor_list(list).keys_in_arc(),
            self.with_replica(addr).keys_in_arc(),
    {
        let a = self.with_finger(k, addr);
        assert forall|key: Seq<char>| #[trigger] a.owned_keys.contains(key) implies a.owns(
            identifier(key) as int,
        ) by {
            assert(self.owned_keys.contains(key));
        }
        let b = self.with_successor_list(list);
        assert forall|key: Seq<char>| #[trigger] b.owned_keys.contains(key) implies b.owns(
            identifier(key) as int,
        ) by {
            assert(self.owned_keys.contains(key));
        }
        let c = self.with_replica(addr);
        assert forall|key: Seq<char>| #[trigger] c.owned_keys.contains(key) implies c.owns(
            identifier(key) as int,
        ) by {
            assert(self.owned_keys.contains(key));
        }
    }

    /// A node whose predecessor is unknown is responsible for the whole
    /// ring: forgetting a predecessor never puts a key out of the arc.
    pub proof fn lemma_forgetting_keeps_arc(self)
        ensures
            self.with_predecessor(self.self_addr).keys_in_arc(),
    {
    }

    /// A new predecessor keeps every key in the arc if it lies strictly
    /// between the old one and the node, and no key lies between the old
    /// predecessor and the new one.
    pub proof fn lemma_predecessor_keeps_arc(self, other: Seq<char>)
        requires
            self.keys_in_arc(),
            (IntervalView {
                bracket1: Bracket::Open,
                val1: identifier(self.predecessor) as int,
                val2: self.id(),
                bracket2: Bracket::Open,
            }).contains(identifier(other) as int),
            forall|key: Seq<char>| #[trigger]
                self.owned_keys.contains(key) ==> !(IntervalView {
                    bracket1: Bracket::Open,
                    val1: identifier(self.predecessor) as int,
                    val2: identifier(other) as int,
                    bracket2: Bracket::Closed,
                }).contains(identifier(key) as int),
        ensures
            self.with_predecessor(other).keys_in_arc(),
    {
        let after = self.with_predecessor(other);
        assert forall|key: Seq<char>| #[trigger] after.owned_keys.contains(key) implies after.owns(
            identifier(key) as int,
        ) by {
            assert(self.owned_keys.contains(key));
            assert(self.owns(identifier(key) as int));
        }
    }

    /// A notification never moves the predecessor backwards.
    ///
    /// After it the predecessor is the old one or the claimant. A
    /// predecessor that is known and alive gives way only to a claimant
    /// strictly between it and the node. And a claimant that has been taken
    /// stays when it claims again.
    pub proof fn lemma_notify_moves_forward(self, other: Seq<char>, alive: bool, again: bool)
        ensures
            self.notified(other, alive).predecessor == self.predecessor || self.notified(
                other,
                alive,
            ).predecessor == other,
            alive && self.predecessor != self.self_addr && self.notified(other, alive).predecessor
                != self.predecessor ==> (IntervalView {
                bracket1: Bracket::Open,
                val1: identifier(self.predecessor) as int,
                val2: self.id(),
                bracket2: Bracket::Open,
            }).contains(identifier(other) as int),
            self.accepts_predecessor(other, alive) ==> self.notified(other, alive).notified(
                other,
                again,
            ) == self.notified(other, alive),
            !self.accepts_predecessor(other, alive) ==> self.notified(other, alive).notified(
                other,
                alive,
            ) == self,
    {
    }

    /// A ring of one is at rest: what the node learns from itself changes
    /// none of its pointers.
    ///
    /// Its successor is itself and names it as predecessor, which leaves
    /// the successor alone; its own notification leaves the predecessor
    /// alone; and every finger, looked up afresh, is the node itself again.
    pub proof fn lemma_ring_of_one_rests(self_addr: Seq<char>, k: int, alive: bool)
        requires
            0 <= k < FINGERS,
        ensures
            NodeView::solo(self_addr).wf(),
            NodeView::solo(self_addr).successor() == self_addr,
            NodeView::solo(self_addr).stabilized(self_addr, self_addr, alive) == NodeView::solo(
                self_addr,
            ),
            NodeView::solo(self_addr).notified(self_addr, alive) == NodeView::solo(self_addr),
            NodeView::solo(self_addr).with_finger(k, self_addr) == NodeView::solo(self_addr),
            NodeView::solo(self_addr).closest_preceding_finger(k) == self_addr,
    {
        let solo = NodeView::solo(self_addr);
        assert(solo.with_finger(k, self_addr).fingers =~= solo.fingers);
        solo.lemma_closest_preceding(k);
    }

    /// When the successor gives way to a better one, the new successor is
    /// strictly nearer to the node than the old one was.
    pub proof fn lemma_stabilize_moves_nearer(self, s: Seq<char>, p: Seq<char>, alive: bool)
        requires
            self.wf(),
        ensures
            self.stabilized(s, p, alive).successor() == self.successor() || (self.stabilized(
                s,
                p,
                alive,
            ).successor() == p && alive && (IntervalView {
                bracket1: Bracket::Open,
                val1: self.id(),
                val2: identifier(s) as int,
                bracket2: Bracket::Open,
            }).contains(identifier(p) as int)),
            self.better_successor(s, p, alive) && identifier(s) != self.id() ==> 0
                < crate::ring::ring_distance(self.id(), identifier(p) as int)
                < crate::ring::ring_distance(self.id(), identifier(s) as int),
    {
    }

    /// Every finger start is where the Chord paper puts it.
    pub proof fn lemma_finger_starts(self, k: int)
        requires
            self.wf(),
            0 <= k < FINGERS,
        ensures
            self.fingers[k].start == finger_start(self.id(), k as nat),
            0 <= self.fingers[k].start < M,
            self.fingers[k].successor_id == identifier(self.fingers[k].successor),
    {
        assert(self.fingers[k].is_finger_of(self.id(), k as nat));
    }

    /// A freshly joined node is well formed.
    pub proof fn lemma_joined_wf(self_addr: Seq<char>, successor: Seq<char>)
        ensures
            NodeView::joined(self_addr, successor).wf(),
            NodeView::joined(self_addr, successor).successor() == successor,
    {
    }

    /// Pointing a finger elsewhere keeps the node well formed.
    pub proof fn lemma_with_finger_wf(self, k: int, addr: Seq<char>)
        requires
            self.wf(),
            0 <= k < FINGERS,
        ensures
            self.with_finger(k, addr).wf(),
    {
        let after = self.with_finger(k, addr);
        assert forall|j: int| 0 <= j < FINGERS implies (#[trigger] after.fingers[j]).is_finger_of(
            after.id(),
            j as nat,
        ) by {
            assert(self.fingers[j].is_finger_of(self.id(), j as nat));
        }
    }

    /// What the scan of the fingers returns: the address of the highest
    /// finger that precedes `id`, and the node's own address exactly when no
    /// finger precedes `id`.
    pub proof fn lemma_scan_fingers(self, id: int, upto: int)
        requires
            self.wf(),
            0 <= upto <= FINGERS,
        ensures
            (forall|k: int| 0 <= k < upto ==> !self.finger_precedes(k, id)) ==> self.scan_fingers(
                id,
                upto,
            ) == self.self_addr,
            (exists|k: int| 0 <= k < upto && self.finger_precedes(k, id)) ==> exists|k: int|
                0 <= k < upto && #[trigger] self.finger_precedes(k, id) && self.scan_fingers(
                    id,
                    upto,
                ) == self.fingers[k].successor && forall|j: int|
                    k < j < upto ==> !self.finger_precedes(j, id),
        decreases upto,
    {
        if upto > 0 {
            self.lemma_scan_fingers(id, upto - 1);
            if self.finger_precedes(upto - 1, id) {
            } else if exists|k: int| 0 <= k < upto && self.finger_precedes(k, id) {
                let k0 = choose|k: int| 0 <= k < upto && self.finger_precedes(k, id);
                assert(0 <= k0 < upto - 1);
                let k = choose|k: int|
                    0 <= k < upto - 1 && #[trigger] self.finger_precedes(k, id)
                        && self.scan_fingers(id, upto - 1) == self.fingers[k].successor
                        && forall|j: int| k < j < upto - 1 ==> !self.finger_precedes(j, id);
                assert(forall|j: int| k < j < upto ==> !self.finger_precedes(j, id));
            }
        }
    }

    /// The closest preceding finger of `id` is the node itself, or a node
    /// whose identifier lies strictly between the node's and `id`; it is the
    /// node itself only if no finger lies there.
    pub proof fn lemma_closest_preceding(self, id: int)
        requires
            self.wf(),
        ensures
            self.closest_preceding_finger(id) == self.self_addr <==> forall|k: int|
                0 <= k < FINGERS ==> !self.finger_precedes(k, id),
            self.closest_preceding_finger(id) != self.self_addr ==> (IntervalView {
                bracket1: Bracket::Open,
                val1: self.id(),
                val2: id,
                bracket2: Bracket::Open,
            }).contains(identifier(self.closest_preceding_finger(id)) as int),
    {
        self.lemma_scan_fingers(id, FINGERS as int);
        if exists|k: int| 0 <= k < FINGERS && self.finger_precedes(k, id) {
            let k = choose|k: int|
                0 <= k < FINGERS && #[trigger] self.finger_precedes(k, id)
                    && self.closest_preceding_finger(id) == self.fingers[k].successor;
            self.lemma_finger_starts(k);
        }
    }
}

/// Where a node found a key.
#[derive(Clone, Copy, Debug, PartialEq, Eq, Structural)]
pub enum KeyPresence {
    /// Among the keys it owns.
    Owned,
    /// Only among its replicas: the node has become the owner after churn.
    Replica,
    /// Nowhere.
    Absent,
}

impl KeyPresence {
    /// Whether the key was found at all.
    pub fn is_present(&self) -> (found: bool)
        ensures
            found == (*self != KeyPresence::Absent),
    {
        match self {
            KeyPresence::Absent => false,
            _ => true,
        }
    }
}

/// What became of an insertion.
pub enum InsertOutcome {
    /// This node owns the key and has stored it; the key is to be sent as a
    /// replica to each address of `replicas`.
    Stored { owner_id: u64, replicas: Vec<String> },
    /// Another node owns the key; the insertion is to be sent on to it.
    Forward { owner: String },
}

/// What became of a query for a key.
pub enum ContainsOutcome {
    /// This node owns the key's identifier and answers for itself.
    Local { presence: KeyPresence },
    /// Another node owns it; the query is to be sent on to it.
    Forward { owner: String },
}

/// One finger-table entry as shown to an operator.
pub struct FingerInfo {
    pub start: u64,
    pub interval: String,
    pub successor_id: u64,
    pub successor: String,
}

/// A snapshot of a node for introspection.
pub struct NodeInfo {
    pub self_ip: String,
    pub self_id: u64,
    pub predecessor: String,
    pub predecessor_id: u64,
    pub finger_table: Vec<FingerInfo>,
    pub successor_list: Vec<(String, u64)>,
    pub hash_set: Vec<String>,
    pub replica_set: Vec<String>,
}

impl FingerInfo {
    /// The entry shows the finger `finger`.
    pub open spec fn shows(&self, finger: FingerView) -> bool {
        &&& self.start == finger.start
        &&& self.interval@ == finger.interval.notation()
        &&& self.successor_id == finger.successor_id
        &&& self.successor@ == finger.successor
    }
}

impl NodeInfo {
    /// The snapshot shows the node `node`: every pointer with its
    /// identifier, every finger, and each stored key once.
    pub open spec fn shows(&self, node: NodeView) -> bool {
        &&& self.self_ip@ == node.self_addr
        &&& self.self_id == node.id()
        &&& self.predecessor@ == node.predecessor
        &&& self.predecessor_id == identifier(node.predecessor)
        &&& self.finger_table@.len() == node.fingers.len()
        &&& forall|k: int|
            0 <= k < node.fingers.len() ==> (#[trigger] self.finger_table@[k]).shows(
                node.fingers[k],
            )
        &&& self.successor_list@.len() == node.successor_list.len()
        &&& forall|i: int|
            0 <= i < node.successor_list.len() ==> (#[trigger] self.successor_list@[i]).0@
                == node.successor_list[i] && self.successor_list@[i].1 == identifier(
                node.successor_list[i],
            )
        &&& texts(self.hash_set@).no_duplicates()
        &&& texts(self.hash_set@).to_set() == node.owned_keys
        &&& texts(self.replica_set@).no_duplicates()
        &&& texts(self.replica_set@).to_set() == node.replica_keys
    }
}

/// The values of the entries of a finger table.
pub open spec fn finger_views(table: Seq<FingerTableEntry>) -> Seq<FingerView> {
    Seq::new(table.len(), |k: int| table[k]@)
}

/// In-memory state of a node: finger table, predecessor, successor list,
/// the keys it owns and the keys it holds as a replica.
pub struct ChordNode {
    finger_table: Vec<FingerTableEntry>,
    hash_set: KeySet,
    self_ip: String,
    predecessor: String,
    successor_list: Vec<String>,
    replica_set: KeySet,
}

impl View for ChordNode {
    type V = NodeView;

    closed spec fn view(&self) -> NodeView {
        NodeView {
            self_addr: self.self_ip@,
            fingers: finger_views(self.finger_table@),
            predecessor: self.predecessor@,
            successor_list: texts(self.successor_list@),
            owned_keys: self.hash_set@,
            replica_keys: self.replica_set@,
        }
    }
}

impl ChordNode {
    /// The invariant of the state: the view is well formed and neither key
    /// set stores a key twice.
    pub closed spec fn wf(&self) -> bool {
        &&& self@.wf()
        &&& self.hash_set.wf()
        &&& self.replica_set.wf()
    }

    /// A well-formed node has a well-formed view.
    pub proof fn lemma_wf(&self)
        requires
            self.wf(),
        ensures
            self@.wf(),
    {
    }

    /// A node with the given finger table, keys and predecessor, an empty
    /// successor list and no replicas.
    pub fn new(
        finger_table: Vec<FingerTableEntry>,
        hash_set: KeySet,
        self_ip: String,
        predecessor: String,
    ) -> (node: Self)
        requires
            hash_set.wf(),
            finger_table.len() == FINGERS,
            forall|k: int|
                0 <= k < FINGERS ==> (#[trigger] finger_table@[k]@).is_finger_of(
                    identifier(self_ip@) as int,
                    k as nat,
                ),
        ensures
            node.wf(),
            node@ == (NodeView {
                self_addr: self_ip@,
                fingers: finger_views(finger_table@),
                predecessor: predecessor@,
                successor_list: Seq::empty(),
                owned_keys: hash_set@,
                replica_keys: Set::empty(),
            }),
    {
        let node = ChordNode {
            finger_table,
            hash_set,
            self_ip,
            predecessor,
            successor_list: Vec::new(),
            replica_set: KeySet::new(),
        };
        proof {
            node.hash_set.lemma_listing();
            assert(texts(node.successor_list@) =~= Seq::<Seq<char>>::empty());
        }
        node
    }

    /// The node's own address.
    pub fn self_ip(&self) -> (addr: String)
        ensures
            addr@ == self@.self_addr,
    {
        self.self_ip.clone()
    }

    /// The node's own ring identifier.
    pub fn self_id(&self) -> (id: u64)
        ensures
            id == self@.id(),
            id < M,
    {
        get_identifier(&self.self_ip)
    }

    /// The immediate successor, the address in entry 0 of the finger table.
    pub fn get_successor(&self) -> (addr: String)
        requires
            self.wf(),
        ensures
            addr@ == self@.successor(),
    {
        self.finger_table[0].node_ip().clone()
    }

    /// Makes `new_succ` the immediate successor.
    pub fn update_successor(&mut self, new_succ: String)
        requires
            old(self).wf(),
        ensures
            final(self).wf(),
            final(self)@ == old(self)@.with_successor(new_succ@),
    {
        self.point_finger(0, new_succ);
    }

    /// Points entry `k` of the finger table at `addr`.
    pub fn point_finger(&mut self, k: usize, addr: String)
        requires
            old(self).wf(),
            k < FINGERS,
        ensures
            final(self).wf(),
            final(self)@ == old(self)@.with_finger(k as int, addr@),
    {
        let entry = self.finger_table[k].pointing_at(addr);
        self.finger_table.set(k, entry);
        proof {
            old(self)@.lemma_with_finger_wf(k as int, addr@);
            assert(finger_views(self.finger_table@) =~= old(self)@.with_finger(
                k as int,
                addr@,
            ).fingers);
        }
    }

    /// The predecessor; the node's own address while none is known.
    pub fn get_predecessor(&self) -> (addr: String)
        ensures
            addr@ == self@.predecessor,
    {
        self.predecessor.clone()
    }

    /// Makes `ip` the predecessor.
    pub fn update_predecessor(&mut self, ip: String)
        requires
            old(self).wf(),
        ensures
            final(self).wf(),
            final(self)@ == old(self)@.with_predecessor(ip@),
    {
        self.predecessor = ip;
    }

    /// A copy of the successor list.
    pub fn successor_list(&self) -> (list: Vec<String>)
        ensures
            texts(list@) == self@.successor_list,
    {
        clone_texts(&self.successor_list)
    }

    /// The start of entry `k` of the finger table.
    pub fn finger_start(&self, k: usize) -> (start: u64)
        requires
            self.wf(),
            k < FINGERS,
        ensures
            start == finger_start(self@.id(), k as nat),
            start == self@.fingers[k as int].start,
            start < M,
    {
        proof {
            self@.lemma_finger_starts(k as int);
        }
        self.finger_table[k].start()
    }

    /// The closest node that this node knows to precede `id`: the address
    /// of the highest finger whose identifier lies strictly between this
    /// node's and `id`, or the node's own address where no finger does.
    pub fn closest_preceding(&self, id: u64) -> (addr: String)
        requires
            self.wf(),
            id < M,
        ensures
            addr@ == self@.closest_preceding_finger(id as int),
    {
        let self_id = get_identifier(&self.self_ip);
        let interval = Interval::new(Bracket::Open, self_id, id, Bracket::Open);
        let mut k: usize = self.finger_table.len();
        while k > 0
            invariant
                self.wf(),
                k <= self.finger_table.len(),
                self.finger_table.len() == FINGERS,
                interval.wf(),
                interval@ == (IntervalView {
                    bracket1: Bracket::Open,
                    val1: self@.id(),
                    val2: id as int,
                    bracket2: Bracket::Open,
                }),
                self@.closest_preceding_finger(id as int) == self@.scan_fingers(
                    id as int,
                    k as int,
                ),
            decreases k,
        {
            k = k - 1;
            let entry = &self.finger_table[k];
            if interval.contains(entry.successor_id()) {
                return entry.node_ip().clone();
            }
        }
        self.self_ip.clone()
    }

    /// The closest preceding finger of the identifier written in `id`.
    ///
    /// A text that is no identifier of the ring is rejected.
    pub fn closest_preceding_finger(&self, id: &String) -> (addr: Result<String, InputError>)
        requires
            self.wf(),
        ensures
            match identifier_text(id@) {
                Ok(v) => addr matches Ok(a) && a@ == self@.closest_preceding_finger(v as int),
                Err(e) => addr == Err::<String, InputError>(e),
            },
    {
        match parse_identifier(id.as_str()) {
            Ok(v) => Ok(self.closest_preceding(v)),
            Err(e) => Err(e),
        }
    }

    /// Offers `s` as entry `i` of the finger table.
    ///
    /// The entry is replaced if the identifier of `s` lies in
    /// `[id(self), id(entry))`. The offer is then to be passed on to the
    /// predecessor, whose address is returned, unless the predecessor is
    /// `s` itself.
    pub fn update_finger_table(&mut self, s: String, i: u64) -> (pass_on: Option<String>)
        requires
            old(self).wf(),
            i < FINGERS,
        ensures
            final(self).wf(),
            final(self)@ == old(self)@.offered_finger(s@, i as int),
            match old(self)@.offer_passed_to(s@, i as int) {
                Some(to) => pass_on matches Some(p) && p@ == to,
                None => pass_on is None,
            },
    {
        let k: usize = i as usize;
        let self_id = get_identifier(&self.self_ip);
        let s_id = get_identifier(&s);
        let entry_id = self.finger_table[k].successor_id();
        proof {
            self@.lemma_finger_starts(k as int);
        }
        let interval = Interval::new(Bracket::Closed, self_id, entry_id, Bracket::Open);
        if interval.contains(s_id) {
            let same = self.predecessor == s;
            self.point_finger(k, s);
            if same {
                None
            } else {
                Some(self.predecessor.clone())
            }
        } else {
            None
        }
    }

    /// Takes in what the successor `s` named as its predecessor: `p`, with
    /// `alive` telling whether `p` answered a probe.
    ///
    /// If `p` is alive, is not this node and lies strictly between this
    /// node and `s`, it becomes the successor. Returns the successor as it
    /// is afterwards: the node to notify.
    pub fn stabilize(&mut self, s: &String, p: &String, alive: bool) -> (successor: String)
        requires
            old(self).wf(),
        ensures
            final(self).wf(),
            final(self)@ == old(self)@.stabilized(s@, p@, alive),
            successor@ == final(self)@.successor(),
    {
        if alive && *p != self.self_ip {
            let self_id = get_identifier(&self.self_ip);
            let s_id = get_identifier(s);
            let p_id = get_identifier(p);
            let arc = Interval::new(Bracket::Open, self_id, s_id, Bracket::Open);
            if arc.contains(p_id) {
                self.point_finger(0, p.clone());
            }
        }
        self.get_successor()
    }

    /// Replaces the successor list.
    pub fn replace_successor_list(&mut self, list: Vec<String>)
        requires
            old(self).wf(),
            list.len() <= FINGERS,
        ensures
            final(self).wf(),
            final(self)@ == old(self)@.with_successor_list(texts(list@)),
    {
        self.successor_list = list;
    }

    /// `other_node` claims to be this node's predecessor.
    ///
    /// It becomes the predecessor if the present one is dead
    /// (`predecessor_alive` is the result of probing it), is unknown, or
    /// lies behind `other_node` on the way to this node.
    pub fn notify(&mut self, other_node: String, predecessor_alive: bool)
        requires
            old(self).wf(),
        ensures
            final(self).wf(),
            final(self)@ == old(self)@.notified(other_node@, predecessor_alive),
    {
        let pred_id = get_identifier(&self.predecessor);
        let other_id = get_identifier(&other_node);
        let self_id = get_identifier(&self.self_ip);
        let arc = Interval::new(Bracket::Open, pred_id, self_id, Bracket::Open);
        if !predecessor_alive || self.predecessor == self.self_ip || arc.contains(other_id) {
            self.predecessor = other_node;
        }
    }

    /// Stores `key` if this node is its owner, `owner` being the successor
    /// of the key's identifier as routing found it.
    ///
    /// The owner stores the key and hands back its successor list, to each
    /// address of which a replica is to be sent. Any other node hands the
    /// insertion on.
    pub fn insert(&mut self, key: String, owner: &String) -> (outcome: InsertOutcome)
        requires
            old(self).wf(),
        ensures
            final(self).wf(),
            final(self)@ == old(self)@.inserted(key@, owner@),
            match outcome {
                InsertOutcome::Stored { owner_id, replicas } => {
                    &&& owner@ == old(self)@.self_addr
                    &&& owner_id == old(self)@.id()
                    &&& texts(replicas@) == old(self)@.successor_list
                },
                InsertOutcome::Forward { owner: to } => {
                    &&& owner@ != old(self)@.self_addr
                    &&& to@ == owner@
                },
            },
    {
        if *owner == self.self_ip {
            self.hash_set.insert(key);
            proof {
                self.hash_set.lemma_listing();
            }
            InsertOutcome::Stored {
                owner_id: get_identifier(&self.self_ip),
                replicas: clone_texts(&self.successor_list),
            }
        } else {
            InsertOutcome::Forward { owner: owner.clone() }
        }
    }

    /// Stores `key` as a replica.
    pub fn insert_replica(&mut self, key: String)
        requires
            old(self).wf(),
        ensures
            final(self).wf(),
            final(self)@ == old(self)@.with_replica(key@),
    {
        self.replica_set.insert(key);
        proof {
            self.replica_set.lemma_listing();
        }
    }

    /// Answers whether `key` is stored, `owner` being the successor of the
    /// key's identifier as routing found it.
    ///
    /// The owner looks among its own keys, then among its replicas. Any
    /// other node hands the query on.
    pub fn contains(&self, key: &String, owner: &String) -> (outcome: ContainsOutcome)
        ensures
            match outcome {
                ContainsOutcome::Local { presence } => {
                    &&& owner@ == self@.self_addr
                    &&& presence == self@.presence(key@)
                },
                ContainsOutcome::Forward { owner: to } => {
                    &&& owner@ != self@.self_addr
                    &&& to@ == owner@
                },
            },
    {
        if *owner == self.self_ip {
            let presence = if self.hash_set.contains(key) {
                KeyPresence::Owned
            } else if self.replica_set.contains(key) {
                KeyPresence::Replica
            } else {
                KeyPresence::Absent
            };
            ContainsOutcome::Local { presence }
        } else {
            ContainsOutcome::Forward { owner: owner.clone() }
        }
    }

    /// A snapshot of the node: its pointers with their identifiers, the
    /// finger table with each interval written out, and the stored keys.
    pub fn info(&self) -> (info: NodeInfo)
        requires
            self.wf(),
        ensures
            info.shows(self@),
    {
        let mut finger_table: Vec<FingerInfo> = Vec::new();
        let mut k: usize = 0;
        while k < self.finger_table.len()
            invariant
                k <= self.finger_table.len(),
                finger_table.len() == k,
                forall|j: int| 0 <= j < k ==> (#[trigger] finger_table@[j]).shows(self@.fingers[j]),
            decreases self.finger_table.len() - k,
        {
            let entry = &self.finger_table[k];
            finger_table.push(
                FingerInfo {
                    start: entry.start(),
                    interval: entry.interval().to_text(),
                    successor_id: entry.successor_id(),
                    successor: entry.node_ip().clone(),
                },
            );
            k = k + 1;
        }
        let mut successor_list: Vec<(String, u64)> = Vec::new();
        let mut i: usize = 0;
        while i < self.successor_list.len()
            invariant
                i <= self.successor_list.len(),
                successor_list.len() == i,
                forall|j: int|
                    0 <= j < i ==> (#[trigger] successor_list@[j]).0@ == self@.successor_list[j]
                        && successor_list@[j].1 == identifier(self@.successor_list[j]),
            decreases self.successor_list.len() - i,
        {
            let addr = self.successor_list[i].clone();
            let id = get_identifier(&addr);
            successor_list.push((addr, id));
            i = i + 1;
        }
        proof {
            self.hash_set.lemma_listing();
            self.replica_set.lemma_listing();
        }
        NodeInfo {
            self_ip: self.self_ip.clone(),
            self_id: get_identifier(&self.self_ip),
            predecessor: self.predecessor.clone(),
            predecessor_id: get_identifier(&self.predecessor),
            finger_table,
            successor_list,
            hash_set: self.hash_set.to_vec(),
            replica_set: self.replica_set.to_vec(),
        }
    }
}

/// The finger table of a node that joins next to `successor`: entry 0
/// points at the successor, every other entry at the node itself until
/// stabilization corrects it. The predecessor is unknown.
pub fn init_finger_table(self_ip: String, successor: String) -> (node: ChordNode)
    ensures
        node.wf(),
        node@ == NodeView::joined(self_ip@, successor@),
{
    let self_id = get_identifier(&self_ip);
    let mut finger_table: Vec<FingerTableEntry> = Vec::new();
    let mut k: u32 = 0;
    while (k as usize) < FINGERS
        invariant
            k <= FINGERS,
            self_id == identifier(self_ip@),
            finger_table.len() == k,
            forall|j: int|
                0 <= j < k ==> (#[trigger] finger_table@[j])@ == FingerView::fresh(
                    self_id as int,
                    j as nat,
                    if j == 0 {
                        successor@
                    } else {
                        self_ip@
                    },
                ),
        decreases FINGERS - k,
    {
        let target = if k == 0 {
            successor.clone()
        } else {
            self_ip.clone()
        };
        finger_table.push(FingerTableEntry::fresh(self_id, k, target));
        k = k + 1;
    }
    let predecessor = self_ip.clone();
    let ghost table = finger_table@;
    let node = ChordNode::new(finger_table, KeySet::new(), self_ip, predecessor);
    assert(node@.fingers =~= NodeView::joined(self_ip@, successor@).fingers);
    node
}

/// A node that joins the ring next to `successor`, the node that an
/// existing member named as the successor of the newcomer's identifier.
/// No keys are moved.
pub fn join(self_ip: String, successor: String) -> (node: ChordNode)
    ensures
        node.wf(),
        node@ == NodeView::joined(self_ip@, successor@),
{
    init_finger_table(self_ip, successor)
}

/// A new node: a ring of one where no successor is given, else a node
/// joined next to that successor.
pub fn initialize_node(self_ip: String, successor: Option<String>) -> (node: ChordNode)
    ensures
        node.wf(),
        node@ == match successor {
            None => NodeView::solo(self_ip@),
            Some(s) => NodeView::joined(self_ip@, s@),
        },
{
    match successor {
        None => {
            let own = self_ip.clone();
            init_finger_table(self_ip, own)
        },
        Some(s) => join(self_ip, s),
    }
}

} // verus!
