//! Repair of a node's pointers after a request to a peer has failed.
//!
//! The repair probes the successor and, if it is dead, the successor list in
//! order, promotes the first live candidate (or the node itself), tells the
//! new successor of it, and finally probes the predecessor. Probing and
//! telling are done by the caller: the repair says what to do next and is
//! told how it went.

use crate::node::ChordNode;
use crate::node::NodeView;
use crate::text::texts;
use vstd::prelude::*;

verus! {

/// The step a repair is waiting for.
#[derive(Clone, Copy, Debug, PartialEq, Eq, Structural)]
pub enum RepairStage {
    /// The probe of the present successor.
    Successor,
    /// The probe of a candidate from the successor list.
    Candidate,
    /// The notification of the newly chosen successor.
    Notify,
    /// The probe of the predecessor.
    Predecessor,
    /// Nothing: the repair is over.
    Done,
}

/// What the caller has to do next.
pub enum RepairStep {
    /// Probe the address and report whether it answered.
    Probe(String),
    /// Tell the address that this node is its predecessor.
    Notify(String),
    /// Nothing is left to do.
    Finished,
}

/// A repair in progress.
pub struct Repair {
    stage: RepairStage,
    target: String,
    candidates: Vec<String>,
    next: usize,
}

/// The mathematical value of a [`Repair`].
pub struct RepairView {
    /// The step the repair is waiting for.
    pub stage: RepairStage,
    /// The address that step concerns.
    pub target: Seq<char>,
    /// The successor list as it stood when the successor was found dead.
    pub candidates: Seq<Seq<char>>,
    /// The position in `candidates` of the candidate being probed.
    pub next: int,
}

impl RepairView {
    /// While a candidate is probed, it is the one at position `next`.
    pub open spec fn wf(self) -> bool {
        self.stage == RepairStage::Candidate ==> 0 <= self.next < self.candidates.len()
            && self.target == self.candidates[self.next]
    }

    /// The repair of `node` at its beginning: the successor is probed.
    pub open spec fn begin(node: NodeView) -> RepairView {
        RepairView {
            stage: RepairStage::Successor,
            target: node.successor(),
            candidates: Seq::empty(),
            next: 0,
        }
    }

    /// The search for a live candidate, taken up at position `next`: the
    /// candidate there is probed; past the end the node becomes its own
    /// successor.
    pub open spec fn scan(node: NodeView, candidates: Seq<Seq<char>>, next: int) -> (
        NodeView,
        RepairView,
    ) {
        if 0 <= next < candidates.len() {
            (
                node,
                RepairView {
                    stage: RepairStage::Candidate,
                    target: candidates[next],
                    candidates,
                    next,
                },
            )
        } else {
            (
                node.with_successor(node.self_addr),
                RepairView {
                    stage: RepairStage::Notify,
                    target: node.self_addr,
                    candidates,
                    next,
                },
            )
        }
    }

    /// The node and the repair after the pending step has been carried out
    /// with the result `ok`: the probed address answered, or the
    /// notification was delivered.
    pub open spec fn advance(self, node: NodeView, ok: bool) -> (NodeView, RepairView) {
        match self.stage {
            RepairStage::Successor => if ok {
                (
                    node,
                    RepairView {
                        stage: RepairStage::Predecessor,
                        target: node.predecessor,
                        ..self
                    },
                )
            } else {
                RepairView::scan(node, node.successor_list, 0)
            },
            RepairStage::Candidate => if ok {
                (
                    node.with_successor(self.target),
                    RepairView { stage: RepairStage::Notify, ..self },
                )
            } else {
                RepairView::scan(node, self.candidates, self.next + 1)
            },
            RepairStage::Notify => (
                node,
                RepairView { stage: RepairStage::Predecessor, target: node.predecessor, ..self },
            ),
            RepairStage::Predecessor => if ok {
                (node, RepairView { stage: RepairStage::Done, ..self })
            } else {
                (
                    node.with_predecessor(node.self_addr),
                    RepairView { stage: RepairStage::Done, ..self },
                )
            },
            RepairStage::Done => (node, self),
        }
    }
}

/// The first address of `candidates`, from position `from` on, that is
/// alive; `fallback` where none is.
pub open spec fn first_live(
    candidates: Seq<Seq<char>>,
    from: int,
    alive: spec_fn(Seq<char>) -> bool,
    fallback: Seq<char>,
) -> Seq<char>
    decreases candidates.len() - from,
{
    if from < 0 || from >= candidates.len() {
        fallback
    } else if alive(candidates[from]) {
        candidates[from]
    } else {
        first_live(candidates, from + 1, alive, fallback)
    }
}

/// The node with a dead predecessor forgotten.
pub open spec fn predecessor_checked(node: NodeView, alive: spec_fn(Seq<char>) -> bool) -> NodeView {
    if alive(node.predecessor) {
        node
    } else {
        node.with_predecessor(node.self_addr)
    }
}

/// What a whole repair makes of `node` when `alive` tells which peers
/// answer: a dead successor gives way to the first live entry of the
/// successor list, or to the node itself, and a dead predecessor is
/// forgotten.
pub open spec fn repaired(node: NodeView, alive: spec_fn(Seq<char>) -> bool) -> NodeView {
    predecessor_checked(
        if alive(node.successor()) {
            node
        } else {
            node.with_successor(first_live(node.successor_list, 0, alive, node.self_addr))
        },
        alive,
    )
}

impl RepairView {
    /// The node and the repair after at most `steps` steps, each carried
    /// out against the peers that `alive` describes.
    pub open spec fn run(self, node: NodeView, alive: spec_fn(Seq<char>) -> bool, steps: nat) -> (
        NodeView,
        RepairView,
    )
        decreases steps,
    {
        if steps == 0 || self.stage == RepairStage::Done {
            (node, self)
        } else {
            let (n, r) = self.advance(node, alive(self.target));
            r.run(n, alive, (steps - 1) as nat)
        }
    }

    /// From the probe of the predecessor on, a repair ends in one step.
    proof fn lemma_run_predecessor(self, node: NodeView, alive: spec_fn(Seq<char>) -> bool, steps: nat)
        requires
            self.stage == RepairStage::Predecessor,
            self.target == node.predecessor,
            steps >= 1,
        ensures
            self.run(node, alive, steps).0 == predecessor_checked(node, alive),
            self.run(node, alive, steps).1.stage == RepairStage::Done,
    {
        reveal_with_fuel(RepairView::run, 2);
    }

    /// From the notification on, a repair ends in two steps.
    proof fn lemma_run_notify(self, node: NodeView, alive: spec_fn(Seq<char>) -> bool, steps: nat)
        requires
            self.stage == RepairStage::Notify,
            steps >= 2,
        ensures
            self.run(node, alive, steps).0 == predecessor_checked(node, alive),
            self.run(node, alive, steps).1.stage == RepairStage::Done,
    {
        let (n, r) = self.advance(node, alive(self.target));
        r.lemma_run_predecessor(n, alive, (steps - 1) as nat);
    }

    /// From the probe of candidate `next` on, a repair promotes the first
    /// live candidate, or the node itself, and checks the predecessor.
    proof fn lemma_run_scan(self, node: NodeView, alive: spec_fn(Seq<char>) -> bool, steps: nat)
        requires
            self.stage == RepairStage::Candidate,
            self.wf(),
            steps >= self.candidates.len() - self.next + 2,
        ensures
            self.run(node, alive, steps).0 == predecessor_checked(
                node.with_successor(
                    first_live(self.candidates, self.next, alive, node.self_addr),
                ),
                alive,
            ),
            self.run(node, alive, steps).1.stage == RepairStage::Done,
        decreases self.candidates.len() - self.next,
    {
        let (n, r) = self.advance(node, alive(self.target));
        if alive(self.target) {
            r.lemma_run_notify(n, alive, (steps - 1) as nat);
        } else if self.next + 1 < self.candidates.len() {
            r.lemma_run_scan(n, alive, (steps - 1) as nat);
        } else {
            r.lemma_run_notify(n, alive, (steps - 1) as nat);
        }
    }

    /// A repair carried to its end leaves the node as [`repaired`] says: the
    /// successor is one that answered its probe, or the node itself, and
    /// the predecessor is one that answered, or unknown.
    pub proof fn lemma_run(node: NodeView, alive: spec_fn(Seq<char>) -> bool)
        requires
            node.wf(),
        ensures
            RepairView::begin(node).run(node, alive, node.successor_list.len() + 3).0 == repaired(
                node,
                alive,
            ),
            RepairView::begin(node).run(node, alive, node.successor_list.len() + 3).1.stage
                == RepairStage::Done,
    {
        let start = RepairView::begin(node);
        let steps = node.successor_list.len() + 3;
        let (n, r) = start.advance(node, alive(start.target));
        if alive(start.target) {
            r.lemma_run_predecessor(n, alive, (steps - 1) as nat);
        } else if node.successor_list.len() > 0 {
            r.lemma_run_scan(n, alive, (steps - 1) as nat);
        } else {
            r.lemma_run_notify(n, alive, (steps - 1) as nat);
        }
    }
}

impl View for Repair {
    type V = RepairView;

    closed spec fn view(&self) -> RepairView {
        RepairView {
            stage: self.stage,
            target: self.target@,
            candidates: texts(self.candidates@),
            next: self.next as int,
        }
    }
}

impl ChordNode {
    /// Begins the repair of this node's pointers. The first step probes
    /// the successor.
    pub fn handle_failure(&self) -> (repair: Repair)
        requires
            self.wf(),
        ensures
            repair@ == RepairView::begin(self@),
            repair@.wf(),
    {
        let repair = Repair {
            stage: RepairStage::Successor,
            target: self.get_successor(),
            candidates: Vec::new(),
            next: 0,
        };
        assert(texts(repair.candidates@) =~= Seq::<Seq<char>>::empty());
        repair
    }
}

impl Repair {
    /// What the caller has to do next.
    pub fn step(&self) -> (step: RepairStep)
        ensures
            match step {
                RepairStep::Probe(addr) => {
                    &&& addr@ == self@.target
                    &&& (self@.stage == RepairStage::Successor || self@.stage
                        == RepairStage::Candidate || self@.stage == RepairStage::Predecessor)
                },
                RepairStep::Notify(addr) => {
                    &&& addr@ == self@.target
                    &&& self@.stage == RepairStage::Notify
                },
                RepairStep::Finished => self@.stage == RepairStage::Done,
            },
    {
        match self.stage {
            RepairStage::Successor => RepairStep::Probe(self.target.clone()),
            RepairStage::Candidate => RepairStep::Probe(self.target.clone()),
            RepairStage::Predecessor => RepairStep::Probe(self.target.clone()),
            RepairStage::Notify => RepairStep::Notify(self.target.clone()),
            RepairStage::Done => RepairStep::Finished,
        }
    }

    /// Whether the repair is over.
    pub fn is_finished(&self) -> (done: bool)
        ensures
            done == (self@.stage == RepairStage::Done),
    {
        match self.stage {
            RepairStage::Done => true,
            _ => false,
        }
    }

    /// Takes up the search for a live candidate at position `next`.
    fn get_first_live_successor(&mut self, node: &mut ChordNode, next: usize)
        requires
            old(node).wf(),
            next <= old(self).candidates.len(),
        ensures
            final(node).wf(),
            final(self)@.wf(),
            (final(node)@, final(self)@) == RepairView::scan(
                old(node)@,
                old(self)@.candidates,
                next as int,
            ),
    {
        self.next = next;
        if next < self.candidates.len() {
            self.stage = RepairStage::Candidate;
            self.target = self.candidates[next].clone();
        } else {
            let own = node.self_ip();
            self.stage = RepairStage::Notify;
            self.target = own.clone();
            node.update_successor(own);
        }
    }

    /// Takes in the result of the pending step: whether the probed address
    /// answered, or whether the notification was delivered.
    ///
    /// A dead successor is replaced by the first candidate of the successor
    /// list that answers, or by the node itself where none does; a dead
    /// predecessor is forgotten. Whether the notification arrived makes no
    /// difference.
    pub fn advance(&mut self, node: &mut ChordNode, ok: bool)
        requires
            old(node).wf(),
            old(self)@.wf(),
        ensures
            final(node).wf(),
            final(self)@.wf(),
            (final(node)@, final(self)@) == old(self)@.advance(old(node)@, ok),
    {
        match self.stage {
            RepairStage::Successor => {
                if ok {
                    self.stage = RepairStage::Predecessor;
                    self.target = node.get_predecessor();
                } else {
                    self.candidates = node.successor_list();
                    self.get_first_live_successor(node, 0);
                }
            },
            RepairStage::Candidate => {
                if ok {
                    self.stage = RepairStage::Notify;
                    node.update_successor(self.target.clone());
                } else {
                    assert(self.next < self.candidates.len()) by {
                        assert(texts(self.candidates@).len() == self.candidates@.len());
                    }
                    let next = self.next + 1;
                    self.get_first_live_successor(node, next);
                }
            },
            RepairStage::Notify => {
                self.stage = RepairStage::Predecessor;
                self.target = node.get_predecessor();
            },
            RepairStage::Predecessor => {
                self.stage = RepairStage::Done;
                if !ok {
                    let own = node.self_ip();
                    node.update_predecessor(own);
                }
            },
            RepairStage::Done => {},
        }
    }
}

} // verus!
