//! Routing: the search for the node that precedes, or succeeds, an
//! identifier.
//!
//! A lookup walks the ring node by node. At each node it learns the node's
//! successor; if the identifier lies between the two, the node is the
//! predecessor sought. Otherwise it moves on to the node's closest
//! preceding finger. What this node knows itself is read directly; every
//! other node is asked, by the caller, who hands the reply back.

use crate::interval::Bracket;
use crate::interval::Interval;
use crate::interval::IntervalView;
use crate::node::ChordNode;
use crate::node::NodeView;
use crate::ring::get_identifier;
use crate::ring::identifier;
use crate::ring::identifier_text;
use crate::ring::parse_identifier;
use crate::ring::InputError;
use crate::ring::M;
use vstd::prelude::*;

verus! {

/// What a lookup is after.
#[derive(Clone, Copy, Debug, PartialEq, Eq, Structural)]
pub enum LookupGoal {
    /// The node that precedes the identifier.
    Predecessor,
    /// The node that succeeds the identifier, its owner.
    Successor,
}

/// The reply a lookup is waiting for.
#[derive(Clone, Copy, Debug, PartialEq, Eq, Structural)]
pub enum LookupPhase {
    /// The successor of the node the lookup is at, to test the arc.
    Successor,
    /// The closest preceding finger of the node the lookup is at.
    Closer,
    /// The successor of the predecessor found, which is the answer.
    Owner,
    /// None: the lookup has its answer.
    Done,
}

/// What the caller has to do next.
pub enum LookupStep {
    /// Ask the node for its immediate successor.
    AskSuccessor(String),
    /// Ask the node for its closest preceding finger of the identifier.
    AskClosestPreceding(String, u64),
    /// Nothing: this is the answer.
    Found(String),
}

/// A lookup in progress.
pub struct Lookup {
    id: u64,
    goal: LookupGoal,
    at: String,
    phase: LookupPhase,
}

/// The mathematical value of a [`Lookup`].
pub struct LookupView {
    /// The identifier looked up.
    pub id: int,
    /// What the lookup is after.
    pub goal: LookupGoal,
    /// The node the lookup is at; the answer once the lookup is done.
    pub at: Seq<char>,
    /// The reply the lookup is waiting for.
    pub phase: LookupPhase,
}

/// Whether `id` lies in the arc `(from, to]` between two nodes.
pub open spec fn between_nodes(from: Seq<char>, to: Seq<char>, id: int) -> bool {
    (IntervalView {
        bracket1: Bracket::Open,
        val1: identifier(from) as int,
        val2: identifier(to) as int,
        bracket2: Bracket::Closed,
    }).contains(id)
}

impl LookupView {
    /// The identifier looked up is a point of the ring.
    pub open spec fn wf(self) -> bool {
        0 <= self.id < M
    }

    /// The lookup as it arrives at the node `at`.
    ///
    /// At this node itself the step is taken at once: either the
    /// identifier lies between the node and its successor, and the lookup
    /// is done, or it moves on to the closest preceding finger.
    pub open spec fn arrive(node: NodeView, id: int, goal: LookupGoal, at: Seq<char>) -> LookupView {
        if at != node.self_addr {
            LookupView { id, goal, at, phase: LookupPhase::Successor }
        } else if between_nodes(node.self_addr, node.successor(), id) {
            LookupView {
                id,
                goal,
                at: match goal {
                    LookupGoal::Predecessor => node.self_addr,
                    LookupGoal::Successor => node.successor(),
                },
                phase: LookupPhase::Done,
            }
        } else {
            LookupView {
                id,
                goal,
                at: node.closest_preceding_finger(id),
                phase: LookupPhase::Successor,
            }
        }
    }

    /// The lookup at its beginning, at this node.
    pub open spec fn begin(node: NodeView, id: int, goal: LookupGoal) -> LookupView {
        LookupView::arrive(node, id, goal, node.self_addr)
    }

    /// The lookup after the node it is at has replied with `reply`.
    pub open spec fn advance(self, node: NodeView, reply: Seq<char>) -> LookupView {
        match self.phase {
            LookupPhase::Successor => if between_nodes(self.at, reply, self.id) {
                match self.goal {
                    LookupGoal::Predecessor => LookupView { phase: LookupPhase::Done, ..self },
                    LookupGoal::Successor => LookupView { phase: LookupPhase::Owner, ..self },
                }
            } else {
                LookupView { phase: LookupPhase::Closer, ..self }
            },
            LookupPhase::Closer => LookupView::arrive(node, self.id, self.goal, reply),
            LookupPhase::Owner => LookupView { at: reply, phase: LookupPhase::Done, ..self },
            LookupPhase::Done => self,
        }
    }

    /// On a ring of one, every lookup is answered at once with the node
    /// itself.
    pub proof fn lemma_ring_of_one(self_addr: Seq<char>, id: int, goal: LookupGoal)
        requires
            0 <= id < M,
        ensures
            LookupView::begin(NodeView::solo(self_addr), id, goal) == (LookupView {
                id,
                goal,
                at: self_addr,
                phase: LookupPhase::Done,
            }),
    {
    }

    /// A lookup that is not answered at this node leaves it: it goes on
    /// at a finger that lies strictly between this node and the
    /// identifier, never at this node again.
    pub proof fn lemma_local_step_leaves(node: NodeView, id: int, goal: LookupGoal)
        requires
            node.wf(),
            0 <= id < M,
            LookupView::begin(node, id, goal).phase != LookupPhase::Done,
        ensures
            LookupView::begin(node, id, goal).phase == LookupPhase::Successor,
            LookupView::begin(node, id, goal).at != node.self_addr,
            (IntervalView {
                bracket1: Bracket::Open,
                val1: node.id(),
                val2: id,
                bracket2: Bracket::Open,
            }).contains(identifier(LookupView::begin(node, id, goal).at) as int),
    {
        node.lemma_finger_starts(0);
        node.lemma_closest_preceding(id);
        assert(node.finger_precedes(0, id));
    }
}

impl View for Lookup {
    type V = LookupView;

    closed spec fn view(&self) -> LookupView {
        LookupView { id: self.id as int, goal: self.goal, at: self.at@, phase: self.phase }
    }
}

impl Lookup {
    /// The identifier looked up is a point of the ring.
    pub open spec fn wf(&self) -> bool {
        self@.wf()
    }

    /// The lookup as it arrives at the node `at`.
    fn arrive(node: &ChordNode, id: u64, goal: LookupGoal, at: String) -> (lookup: Lookup)
        requires
            node.wf(),
            id < M,
        ensures
            lookup.wf(),
            lookup@ == LookupView::arrive(node@, id as int, goal, at@),
    {
        let own = node.self_ip();
        if at != own {
            Lookup { id, goal, at, phase: LookupPhase::Successor }
        } else {
            let successor = node.get_successor();
            let arc = Interval::new(
                Bracket::Open,
                get_identifier(&own),
                get_identifier(&successor),
                Bracket::Closed,
            );
            if arc.contains(id) {
                let answer = match goal {
                    LookupGoal::Predecessor => own,
                    LookupGoal::Successor => successor,
                };
                Lookup { id, goal, at: answer, phase: LookupPhase::Done }
            } else {
                Lookup { id, goal, at: node.closest_preceding(id), phase: LookupPhase::Successor }
            }
        }
    }

    /// What the caller has to do next: which node to ask what, or the
    /// answer.
    pub fn step(&self) -> (step: LookupStep)
        ensures
            match step {
                LookupStep::AskSuccessor(node) => {
                    &&& node@ == self@.at
                    &&& (self@.phase == LookupPhase::Successor || self@.phase
                        == LookupPhase::Owner)
                },
                LookupStep::AskClosestPreceding(node, id) => {
                    &&& node@ == self@.at
                    &&& id == self@.id
                    &&& self@.phase == LookupPhase::Closer
                },
                LookupStep::Found(answer) => {
                    &&& answer@ == self@.at
                    &&& self@.phase == LookupPhase::Done
                },
            },
    {
        match self.phase {
            LookupPhase::Successor => LookupStep::AskSuccessor(self.at.clone()),
            LookupPhase::Owner => LookupStep::AskSuccessor(self.at.clone()),
            LookupPhase::Closer => LookupStep::AskClosestPreceding(self.at.clone(), self.id),
            LookupPhase::Done => LookupStep::Found(self.at.clone()),
        }
    }

    /// The answer, once the lookup has it.
    pub fn answer(&self) -> (answer: Option<String>)
        ensures
            match answer {
                Some(a) => self@.phase == LookupPhase::Done && a@ == self@.at,
                None => self@.phase != LookupPhase::Done,
            },
    {
        match self.phase {
            LookupPhase::Done => Some(self.at.clone()),
            _ => None,
        }
    }

    /// Takes in the reply of the node that was asked.
    pub fn advance(&mut self, node: &ChordNode, reply: String)
        requires
            node.wf(),
            old(self).wf(),
        ensures
            final(self).wf(),
            final(self)@ == old(self)@.advance(node@, reply@),
    {
        match self.phase {
            LookupPhase::Successor => {
                let arc = Interval::new(
                    Bracket::Open,
                    get_identifier(&self.at),
                    get_identifier(&reply),
                    Bracket::Closed,
                );
                if arc.contains(self.id) {
                    self.phase = match self.goal {
                        LookupGoal::Predecessor => LookupPhase::Done,
                        LookupGoal::Successor => LookupPhase::Owner,
                    };
                } else {
                    self.phase = LookupPhase::Closer;
                }
            },
            LookupPhase::Closer => {
                let next = Lookup::arrive(node, self.id, self.goal, reply);
                *self = next;
            },
            LookupPhase::Owner => {
                self.at = reply;
                self.phase = LookupPhase::Done;
            },
            LookupPhase::Done => {},
        }
    }
}

impl ChordNode {
    /// Begins the search for the node that precedes `id`.
    ///
    /// The search walks the ring by successor pointers and finger tables;
    /// it does not use this node's predecessor pointer.
    pub fn calculate_predecessor(&self, id: u64) -> (lookup: Lookup)
        requires
            self.wf(),
            id < M,
        ensures
            lookup.wf(),
            lookup@ == LookupView::begin(self@, id as int, LookupGoal::Predecessor),
    {
        Lookup::arrive(self, id, LookupGoal::Predecessor, self.self_ip())
    }

    /// Begins the search for the successor of `id`, the first node that
    /// can store a key with that identifier.
    pub fn find_successor(&self, id: u64) -> (lookup: Lookup)
        requires
            self.wf(),
            id < M,
        ensures
            lookup.wf(),
            lookup@ == LookupView::begin(self@, id as int, LookupGoal::Successor),
    {
        Lookup::arrive(self, id, LookupGoal::Successor, self.self_ip())
    }

    /// Begins the search for the successor of the identifier written in
    /// `id`. A text that is no identifier of the ring is rejected.
    pub fn calculate_successor(&self, id: &String) -> (lookup: Result<Lookup, InputError>)
        requires
            self.wf(),
        ensures
            match identifier_text(id@) {
                Ok(v) => lookup matches Ok(l) && l.wf() && l@ == LookupView::begin(
                    self@,
                    v as int,
                    LookupGoal::Successor,
                ),
                Err(e) => lookup matches Err(f) && f == e,
            },
    {
        match parse_identifier(id.as_str()) {
            Ok(v) => Ok(self.find_successor(v)),
            Err(e) => Err(e),
        }
    }
}

} // verus!
