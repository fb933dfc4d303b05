//! A model of a ring of nodes, and what a lookup achieves on it.
//!
//! The model holds the state of every node at one moment. A lookup that
//! runs against it is answered by each node from its state. Nothing here
//! is executable: the module states what the routing of the single node
//! adds up to.

use crate::interval::lemma_inside_is_nearer;
use crate::interval::Bracket;
use crate::interval::IntervalView;
use crate::node::NodeView;
use crate::ring::identifier;
use crate::ring::ring_distance;
use crate::ring::FINGERS;
use crate::ring::M;
use crate::routing::between_nodes;
use crate::routing::LookupGoal;
use crate::routing::LookupPhase;
use crate::routing::LookupView;
use vstd::prelude::*;

verus! {

/// The nodes of a ring by their addresses.
pub struct Network {
    pub nodes: Map<Seq<char>, NodeView>,
}

/// The way round the ring from `from` to `to`, a full turn where the two
/// coincide.
pub open spec fn turn_distance(from: int, to: int) -> int {
    if ring_distance(from, to) == 0 {
        M as int
    } else {
        ring_distance(from, to)
    }
}

impl Network {
    /// Whether `addr` is a node of the network.
    pub open spec fn has(self, addr: Seq<char>) -> bool {
        self.nodes.dom().contains(addr)
    }

    /// Every node is well formed and stored under its own address, and
    /// every finger points at a node of the network.
    pub open spec fn wf(self) -> bool {
        forall|addr: Seq<char>| #[trigger]
            self.has(addr) ==> {
                &&& self.nodes[addr].wf()
                &&& self.nodes[addr].self_addr == addr
                &&& forall|k: int|
                    0 <= k < FINGERS ==> self.has(#[trigger] self.nodes[addr].fingers[k].successor)
            }
    }

    /// What the node that the lookup `l` waits for replies.
    pub open spec fn reply(self, l: LookupView) -> Seq<char> {
        match l.phase {
            LookupPhase::Successor => self.nodes[l.at].successor(),
            LookupPhase::Owner => self.nodes[l.at].successor(),
            LookupPhase::Closer => self.nodes[l.at].closest_preceding_finger(l.id),
            LookupPhase::Done => l.at,
        }
    }

    /// The lookup `l`, begun at `origin`, after at most `steps` replies.
    pub open spec fn run(self, origin: Seq<char>, l: LookupView, steps: nat) -> LookupView
        decreases steps,
    {
        if steps == 0 || l.phase == LookupPhase::Done {
            l
        } else {
            self.run(origin, l.advance(self.nodes[origin], self.reply(l)), (steps - 1) as nat)
        }
    }

    /// Whether `p` precedes `id`: the identifier lies between `p` and the
    /// successor of `p`.
    #[verifier::opaque]
    pub open spec fn precedes(self, p: Seq<char>, id: int) -> bool {
        self.has(p) && between_nodes(p, self.nodes[p].successor(), id)
    }

    /// Whether the lookup `l` has its answer, and the right one: the node
    /// that precedes the identifier, or the successor of that node.
    pub open spec fn answered(self, l: LookupView) -> bool {
        &&& l.phase == LookupPhase::Done
        &&& self.has(l.at)
        &&& match l.goal {
            LookupGoal::Predecessor => self.precedes(l.at, l.id),
            LookupGoal::Successor => exists|p: Seq<char>| #[trigger]
                self.precedes(p, l.id) && l.at == self.nodes[p].successor(),
        }
    }

    /// What holds of a lookup at every moment of its run.
    pub open spec fn on_course(self, l: LookupView) -> bool {
        &&& l.wf()
        &&& self.has(l.at)
        &&& l.phase == LookupPhase::Closer ==> !self.precedes(l.at, l.id)
        &&& l.phase == LookupPhase::Owner ==> l.goal == LookupGoal::Successor && self.precedes(
            l.at,
            l.id,
        )
        &&& l.phase == LookupPhase::Done ==> self.answered(l)
    }

    /// A bound on the replies a lookup still needs.
    pub open spec fn replies_left(self, l: LookupView) -> int {
        match l.phase {
            LookupPhase::Done => 0,
            LookupPhase::Owner => 1,
            LookupPhase::Closer => 2 * turn_distance(identifier(l.at) as int, l.id) + 1,
            LookupPhase::Successor => 2 * turn_distance(identifier(l.at) as int, l.id) + 2,
        }
    }

    /// The closest preceding finger of a node of the network is a node of
    /// the network.
    proof fn lemma_finger_in_network(self, addr: Seq<char>, id: int)
        requires
            self.wf(),
            self.has(addr),
        ensures
            self.has(self.nodes[addr].closest_preceding_finger(id)),
    {
        let node = self.nodes[addr];
        node.lemma_scan_fingers(id, FINGERS as int);
        if exists|k: int| 0 <= k < FINGERS && node.finger_precedes(k, id) {
            let k = choose|k: int|
                0 <= k < FINGERS && #[trigger] node.finger_precedes(k, id)
                    && node.closest_preceding_finger(id) == node.fingers[k].successor;
            assert(self.has(node.fingers[k].successor));
        }
    }

    /// A lookup that arrives at a node nearer to the identifier than
    /// `bound` is on course, and needs fewer replies than `bound` allows.
    proof fn lemma_arrive(self, origin: Seq<char>, id: int, goal: LookupGoal, at: Seq<char>)
        requires
            self.wf(),
            self.has(origin),
            self.has(at),
            0 <= id < M,
        ensures
            self.on_course(LookupView::arrive(self.nodes[origin], id, goal, at)),
            self.replies_left(LookupView::arrive(self.nodes[origin], id, goal, at)) <= 2
                * turn_distance(identifier(at) as int, id) + 2,
    {
        reveal(Network::precedes);
        let node = self.nodes[origin];
        let l = LookupView::arrive(node, id, goal, at);
        node.lemma_finger_starts(0);
        assert(self.has(node.fingers[0].successor));
        assert(node.self_addr == origin);
        if at != origin {
        } else if !between_nodes(origin, node.successor(), id) {
            self.lemma_finger_in_network(origin, id);
            LookupView::lemma_local_step_leaves(node, id, goal);
            lemma_inside_is_nearer(node.id(), id, identifier(l.at) as int);
        } else {
            match goal {
                LookupGoal::Predecessor => {
                    assert(self.precedes(l.at, l.id));
                },
                LookupGoal::Successor => {
                    assert(self.precedes(origin, l.id) && l.at == self.nodes[origin].successor());
                },
            }
        }
    }

    /// A lookup on course reaches its answer within the replies that
    /// [`Network::replies_left`] allows.
    proof fn lemma_run(self, origin: Seq<char>, l: LookupView, steps: nat)
        requires
            self.wf(),
            self.has(origin),
            self.on_course(l),
            steps >= self.replies_left(l),
        ensures
            self.answered(self.run(origin, l, steps)),
        decreases steps,
    {
        reveal(Network::precedes);
        if l.phase != LookupPhase::Done {
            let reply = self.reply(l);
            let next = l.advance(self.nodes[origin], reply);
            let node = self.nodes[l.at];
            node.lemma_finger_starts(0);
            assert(self.has(node.fingers[0].successor));
            match l.phase {
                LookupPhase::Successor => {},
                LookupPhase::Owner => {
                    assert(self.precedes(l.at, l.id) && next.at == self.nodes[l.at].successor());
                },
                LookupPhase::Closer => {
                    self.lemma_finger_in_network(l.at, l.id);
                    LookupView::lemma_local_step_leaves(node, l.id, l.goal);
                    lemma_inside_is_nearer(node.id(), l.id, identifier(reply) as int);
                    self.lemma_arrive(origin, l.id, l.goal, reply);
                },
                LookupPhase::Done => {},
            }
            assert(self.on_course(next));
            assert(self.replies_left(next) < self.replies_left(l));
            self.lemma_run(origin, next, (steps - 1) as nat);
        }
    }

    /// Every lookup ends, and ends right.
    ///
    /// On a network of well-formed nodes whose fingers point at nodes of
    /// the network, a lookup begun at any node for any identifier has its
    /// answer after at most `2 * M + 2` replies. The answer to a search for
    /// the predecessor is a node `p` with the identifier between `p` and
    /// the successor of `p`; the answer to a search for the successor is
    /// the successor of such a node.
    pub proof fn lemma_lookup_ends(self, origin: Seq<char>, id: int, goal: LookupGoal)
        requires
            self.wf(),
            self.has(origin),
            0 <= id < M,
        ensures
            self.answered(
                self.run(
                    origin,
                    LookupView::begin(self.nodes[origin], id, goal),
                    (2 * M + 2) as nat,
                ),
            ),
    {
        self.lemma_arrive(origin, id, goal, origin);
        self.lemma_run(
            origin,
            LookupView::begin(self.nodes[origin], id, goal),
            (2 * M + 2) as nat,
        );
    }

    /// No identifier lies between two different nodes and their
    /// successors: the arcs of the nodes do not overlap.
    pub open spec fn arcs_apart(self) -> bool {
        forall|p: Seq<char>, q: Seq<char>, id: int|
            #![trigger self.precedes(p, id), self.precedes(q, id)]
            self.precedes(p, id) && self.precedes(q, id) ==> p == q
    }

    /// The answer of the lookup of `id` for its successor, begun at
    /// `origin`.
    pub open spec fn owner_from(self, origin: Seq<char>, id: int) -> Seq<char> {
        self.run(
            origin,
            LookupView::begin(self.nodes[origin], id, LookupGoal::Successor),
            (2 * M + 2) as nat,
        ).at
    }

    /// The network after the node `at` has taken in the insertion of `key`
    /// that routing has assigned to `owner`.
    pub open spec fn inserted(self, at: Seq<char>, key: Seq<char>, owner: Seq<char>) -> Network {
        Network { nodes: self.nodes.insert(at, self.nodes[at].inserted(key, owner)) }
    }

    /// Where the arcs do not overlap, two lookups of the successor of one
    /// identifier that have their answers have the same answer.
    proof fn lemma_same_answer(self, x: LookupView, y: LookupView)
        requires
            self.arcs_apart(),
            self.answered(x),
            self.answered(y),
            x.goal == LookupGoal::Successor,
            y.goal == LookupGoal::Successor,
            x.id == y.id,
        ensures
            x.at == y.at,
    {
        let p = choose|p: Seq<char>| #[trigger]
            self.precedes(p, x.id) && x.at == self.nodes[p].successor();
        let q = choose|q: Seq<char>| #[trigger]
            self.precedes(q, y.id) && y.at == self.nodes[q].successor();
        assert(self.precedes(p, x.id) && self.precedes(q, x.id));
    }

    /// Where the arcs do not overlap, all nodes agree on the owner of an
    /// identifier.
    pub proof fn lemma_owner_agreed(self, a: Seq<char>, b: Seq<char>, id: int)
        requires
            self.wf(),
            self.arcs_apart(),
            self.has(a),
            self.has(b),
            0 <= id < M,
        ensures
            self.owner_from(a, id) == self.owner_from(b, id),
            self.has(self.owner_from(a, id)),
    {
        self.lemma_lookup_ends(a, id, LookupGoal::Successor);
        self.lemma_lookup_ends(b, id, LookupGoal::Successor);
        let x = self.run(
            a,
            LookupView::begin(self.nodes[a], id, LookupGoal::Successor),
            (2 * M + 2) as nat,
        );
        let y = self.run(
            b,
            LookupView::begin(self.nodes[b], id, LookupGoal::Successor),
            (2 * M + 2) as nat,
        );
        self.lemma_goal_kept(a, LookupView::begin(self.nodes[a], id, LookupGoal::Successor), (2 * M + 2) as nat);
        self.lemma_goal_kept(b, LookupView::begin(self.nodes[b], id, LookupGoal::Successor), (2 * M + 2) as nat);
        self.lemma_same_answer(x, y);
    }

    /// A lookup keeps its identifier and its goal throughout.
    proof fn lemma_goal_kept(self, origin: Seq<char>, l: LookupView, steps: nat)
        ensures
            self.run(origin, l, steps).id == l.id,
            self.run(origin, l, steps).goal == l.goal,
        decreases steps,
    {
        if steps > 0 && l.phase != LookupPhase::Done {
            self.lemma_goal_kept(
                origin,
                l.advance(self.nodes[origin], self.reply(l)),
                (steps - 1) as nat,
            );
        }
    }

    /// The node that routing finds for an identifier is responsible for
    /// it, provided that its predecessor pointer is the node routing
    /// came through.
    pub proof fn lemma_owner_owns(self, p: Seq<char>, id: int)
        requires
            self.wf(),
            self.precedes(p, id),
            self.has(self.nodes[p].successor()),
            self.nodes[self.nodes[p].successor()].predecessor == p,
        ensures
            self.nodes[self.nodes[p].successor()].owns(id),
    {
        reveal(Network::precedes);
        assert(self.has(p));
    }

    /// The insertion of a key changes no pointer: the network stays well
    /// formed, and a lookup has its answer after the insertion exactly if it
    /// had it before.
    proof fn lemma_insert_keeps_pointers(self, at: Seq<char>, key: Seq<char>, owner: Seq<char>)
        requires
            self.wf(),
            self.has(at),
        ensures
            self.inserted(at, key, owner).wf(),
            self.inserted(at, key, owner).has(at),
            forall|addr: Seq<char>| #[trigger]
                self.inserted(at, key, owner).has(addr) == self.has(addr),
            forall|l: LookupView| #[trigger]
                self.inserted(at, key, owner).answered(l) ==> self.answered(l),
    {
        let after = self.inserted(at, key, owner);
        assert forall|addr: Seq<char>| #[trigger] after.has(addr) implies {
            &&& after.nodes[addr].wf()
            &&& after.nodes[addr].self_addr == addr
            &&& forall|k: int|
                0 <= k < FINGERS ==> after.has(#[trigger] after.nodes[addr].fingers[k].successor)
        } by {
            assert(self.has(addr));
            assert forall|k: int| 0 <= k < FINGERS implies after.has(
                #[trigger] after.nodes[addr].fingers[k].successor,
            ) by {
                assert(self.has(self.nodes[addr].fingers[k].successor));
            }
        }
        assert forall|l: LookupView| #[trigger] after.answered(l) implies self.answered(l) by {
            reveal(Network::precedes);
            assert(self.has(l.at));
            match l.goal {
                LookupGoal::Predecessor => {
                    assert(after.precedes(l.at, l.id));
                    assert(self.precedes(l.at, l.id));
                },
                LookupGoal::Successor => {
                    let p = choose|p: Seq<char>| #[trigger]
                        after.precedes(p, l.id) && l.at == after.nodes[p].successor();
                    assert(self.has(p));
                    assert(after.nodes[p].successor() == self.nodes[p].successor());
                    assert(self.precedes(p, l.id) && l.at == self.nodes[p].successor());
                },
            }
        }
    }

    /// What has been inserted is found from everywhere.
    ///
    /// On a ring whose arcs do not overlap, a key inserted through any
    /// node `a` is stored at its owner, and a query through any node `b`
    /// is routed to that owner, which has the key.
    pub proof fn lemma_inserted_is_found(self, a: Seq<char>, b: Seq<char>, key: Seq<char>)
        requires
            self.wf(),
            self.arcs_apart(),
            self.has(a),
            self.has(b),
        ensures
            ({
                let owner = self.owner_from(a, identifier(key) as int);
                let after = self.inserted(owner, key, owner);
                &&& after.wf()
                &&& after.owner_from(b, identifier(key) as int) == owner
                &&& after.nodes[owner].presence(key) == crate::node::KeyPresence::Owned
            }),
    {
        let id = identifier(key) as int;
        let steps = (2 * M + 2) as nat;
        let owner = self.owner_from(a, id);
        let after = self.inserted(owner, key, owner);
        self.lemma_lookup_ends(a, id, LookupGoal::Successor);
        let begin_a = LookupView::begin(self.nodes[a], id, LookupGoal::Successor);
        let x = self.run(a, begin_a, steps);
        self.lemma_goal_kept(a, begin_a, steps);
        self.lemma_insert_keeps_pointers(owner, key, owner);
        assert(after.has(b));
        after.lemma_lookup_ends(b, id, LookupGoal::Successor);
        let begin_b = LookupView::begin(after.nodes[b], id, LookupGoal::Successor);
        let y = after.run(b, begin_b, steps);
        after.lemma_goal_kept(b, begin_b, steps);
        assert(self.answered(y));
        self.lemma_same_answer(x, y);
        assert(self.nodes[owner].self_addr == owner);
    }

    /// A ring in which every node is the predecessor of its successor is at
    /// rest: what a node learns from its successor leaves its successor
    /// alone, and its notification leaves the successor's predecessor alone.
    pub proof fn lemma_settled_ring_rests(self, n: Seq<char>, alive: bool, probed: bool)
        requires
            self.wf(),
            self.has(n),
            self.has(self.nodes[n].successor()),
            self.nodes[self.nodes[n].successor()].predecessor == n,
        ensures
            self.nodes[n].stabilized(
                self.nodes[n].successor(),
                self.nodes[self.nodes[n].successor()].predecessor,
                alive,
            ) == self.nodes[n],
            self.nodes[self.nodes[n].successor()].notified(n, probed)
                == self.nodes[self.nodes[n].successor()],
    {
        assert(self.nodes[n].self_addr == n);
    }

    /// Every node is the predecessor of its successor.
    pub open spec fn settled(self) -> bool {
        forall|n: Seq<char>| #[trigger]
            self.has(n) ==> self.nodes[self.nodes[n].successor()].predecessor == n
    }

    /// On a settled ring a key is stored where it belongs.
    ///
    /// The node that routing finds for a key, from whichever node the
    /// insertion comes in, is responsible for the key's identifier; if all
    /// its keys lay in its arc before, they do so with the new key.
    pub proof fn lemma_routed_insert_keeps_arc(self, a: Seq<char>, key: Seq<char>)
        requires
            self.wf(),
            self.settled(),
            self.has(a),
            self.nodes[self.owner_from(a, identifier(key) as int)].keys_in_arc(),
        ensures
            ({
                let owner = self.owner_from(a, identifier(key) as int);
                &&& self.has(owner)
                &&& self.nodes[owner].owns(identifier(key) as int)
                &&& self.nodes[owner].inserted(key, owner).keys_in_arc()
            }),
    {
        let id = identifier(key) as int;
        let owner = self.owner_from(a, id);
        self.lemma_lookup_ends(a, id, LookupGoal::Successor);
        let begin = LookupView::begin(self.nodes[a], id, LookupGoal::Successor);
        self.lemma_goal_kept(a, begin, (2 * M + 2) as nat);
        let p = choose|p: Seq<char>| #[trigger]
            self.precedes(p, id) && owner == self.nodes[p].successor();
        assert(self.has(p)) by {
            reveal(Network::precedes);
        }
        self.lemma_owner_owns(p, id);
        self.nodes[owner].lemma_insert_keeps_arc(key, owner);
    }

    /// Whether stabilization has nothing left to do at the node `n`: what
    /// `n` learns from its successor leaves `n` as it is, and the
    /// notification of `n` leaves the successor as it is. Every node is
    /// taken to be alive.
    pub open spec fn at_rest(self, n: Seq<char>) -> bool {
        let s = self.nodes[n].successor();
        &&& self.has(s)
        &&& self.nodes[n].stabilized(s, self.nodes[s].predecessor, true) == self.nodes[n]
        &&& self.nodes[s].notified(n, true) == self.nodes[s]
    }

    /// Where stabilization has come to rest, every node is the predecessor
    /// of its successor.
    ///
    /// This holds of a node `n` with a successor other than itself whose
    /// predecessor is known, the three of them having identifiers of their
    /// own. No two such nodes then share a successor, so that the successor
    /// pointers form rings; that there is one ring only is not said.
    pub proof fn lemma_rest_is_order(self, n: Seq<char>)
        requires
            self.wf(),
            self.has(n),
            self.at_rest(n),
            self.nodes[n].successor() != n,
            self.nodes[self.nodes[n].successor()].predecessor != self.nodes[n].successor(),
            identifier(self.nodes[n].successor()) != identifier(n),
            identifier(self.nodes[self.nodes[n].successor()].predecessor) != identifier(
                self.nodes[n].successor(),
            ),
            self.nodes[self.nodes[n].successor()].predecessor != n ==> identifier(
                self.nodes[self.nodes[n].successor()].predecessor,
            ) != identifier(n),
        ensures
            self.nodes[self.nodes[n].successor()].predecessor == n,
    {
        let node = self.nodes[n];
        let s = node.successor();
        let next = self.nodes[s];
        let p = next.predecessor;
        assert(node.self_addr == n);
        assert(next.self_addr == s);
        if p != n {
            if node.better_successor(s, p, true) {
                assert(node.with_successor(p).fingers[0] == node.fingers[0]);
            }
            if next.accepts_predecessor(n, true) {
                assert(next.with_predecessor(n).predecessor == next.predecessor);
            }
        }
    }
}

} // verus!
