//! The periodic repair of a node's view of the ring.
//!
//! A round asks the successor for its predecessor and adopts it as
//! successor if it lies in between, notifies the successor, looks up afresh
//! the successor of one finger chosen at random, and rebuilds the successor
//! list by walking the ring forward.

use crate::node::ChordNode;
use crate::node::NodeView;
use crate::ring::FINGERS;
use crate::routing::Lookup;
use crate::routing::LookupGoal;
use crate::routing::LookupPhase;
use crate::routing::LookupStep;
use crate::routing::LookupView;
use crate::text::texts;
use rand::Rng;
use vstd::prelude::*;

verus! {

/// Draws an index below `bound` with `rand::Rng::gen_range` on the
/// thread-local generator.
///
/// Trusted: the value drawn from the half-open range `0..bound` lies in
/// it. The range must not be empty.
#[verifier::external_body]
fn random_below(bound: usize) -> (k: usize)
    requires
        bound > 0,
    ensures
        k < bound,
{
    rand::thread_rng().gen_range(0..bound)
}

/// The walk along successor pointers that rebuilds the successor list.
pub struct SuccessorWalk {
    start: String,
    at: String,
    found: Vec<String>,
    open: bool,
}

/// The mathematical value of a [`SuccessorWalk`].
pub struct SuccessorWalkView {
    /// The node the walk began at: the successor at that time.
    pub start: Seq<char>,
    /// The node whose successor is asked for next.
    pub at: Seq<char>,
    /// The nodes that have answered, in ring order.
    pub found: Seq<Seq<char>>,
    /// Whether the walk goes on.
    pub open: bool,
}

impl SuccessorWalkView {
    /// At most `FINGERS` nodes are collected, and the first of them is the
    /// node the walk began at.
    pub open spec fn wf(self) -> bool {
        &&& self.found.len() <= FINGERS
        &&& self.open ==> self.found.len() < FINGERS
        &&& self.found.len() > 0 ==> self.found[0] == self.start
        &&& self.found.len() == 0 && self.open ==> self.at == self.start
    }

    /// The walk at its beginning, at the node's successor.
    pub open spec fn begin(node: NodeView) -> SuccessorWalkView {
        SuccessorWalkView {
            start: node.successor(),
            at: node.successor(),
            found: Seq::empty(),
            open: true,
        }
    }

    /// The walk after the node it is at has named its successor (`Some`),
    /// or has failed to answer (`None`).
    ///
    /// A node that answers is alive and is collected; the walk then moves to
    /// the node it named, until `FINGERS` nodes are collected. The first
    /// failure ends the walk.
    pub open spec fn record(self, reply: Option<Seq<char>>) -> SuccessorWalkView {
        if !self.open {
            self
        } else {
            match reply {
                None => SuccessorWalkView { open: false, ..self },
                Some(next) => SuccessorWalkView {
                    found: self.found.push(self.at),
                    at: next,
                    open: self.found.len() + 1 < FINGERS,
                    ..self
                },
            }
        }
    }

    /// Recording a reply keeps the walk well formed.
    pub proof fn lemma_record_wf(self, reply: Option<Seq<char>>)
        requires
            self.wf(),
        ensures
            self.record(reply).wf(),
    {
    }
}

impl View for SuccessorWalk {
    type V = SuccessorWalkView;

    closed spec fn view(&self) -> SuccessorWalkView {
        SuccessorWalkView {
            start: self.start@,
            at: self.at@,
            found: texts(self.found@),
            open: self.open,
        }
    }
}

impl SuccessorWalk {
    /// The node to ask for its successor next; `None` once the walk is
    /// over.
    pub fn pending(&self) -> (node: Option<String>)
        ensures
            match node {
                Some(n) => self@.open && n@ == self@.at,
                None => !self@.open,
            },
    {
        if self.open {
            Some(self.at.clone())
        } else {
            None
        }
    }

    /// Takes in the reply of the node that was asked: the successor it
    /// named, or `None` if it did not answer.
    pub fn record(&mut self, reply: Option<String>)
        requires
            old(self)@.wf(),
        ensures
            final(self)@.wf(),
            final(self)@ == old(self)@.record(
                match reply {
                    Some(r) => Some(r@),
                    None => None,
                },
            ),
    {
        if self.open {
            match reply {
                None => {
                    self.open = false;
                },
                Some(next) => {
                    let ghost before = texts(self.found@);
                    assert(before.len() == self.found@.len());
                    let answered = self.at.clone();
                    self.found.push(answered);
                    self.at = next;
                    self.open = self.found.len() < FINGERS;
                    assert(texts(self.found@) =~= before.push(answered@));
                },
            }
        }
    }
}

impl ChordNode {
    /// Begins the search that refreshes entry `k` of the finger table: the
    /// lookup of the successor of the entry's start. Its answer is what
    /// the entry is to point at.
    pub fn fix_finger(&self, k: usize) -> (lookup: Lookup)
        requires
            self.wf(),
            k < FINGERS,
        ensures
            lookup.wf(),
            lookup@ == LookupView::begin(
                self@,
                self@.fingers[k as int].start,
                LookupGoal::Successor,
            ),
    {
        let start = self.finger_start(k);
        self.find_successor(start)
    }

    /// Chooses an entry of the finger table at random and begins the
    /// search that refreshes it. Returns the entry's index with the lookup.
    pub fn fix_fingers(&self) -> (fix: (usize, Lookup))
        requires
            self.wf(),
        ensures
            fix.0 < FINGERS,
            fix.1.wf(),
            fix.1@ == LookupView::begin(
                self@,
                self@.fingers[fix.0 as int].start,
                LookupGoal::Successor,
            ),
    {
        let k = random_below(FINGERS);
        (k, self.fix_finger(k))
    }

    /// Begins the walk that rebuilds the successor list, at the present
    /// successor.
    pub fn build_successor_list(&self) -> (walk: SuccessorWalk)
        requires
            self.wf(),
        ensures
            walk@ == SuccessorWalkView::begin(self@),
            walk@.wf(),
    {
        let successor = self.get_successor();
        let walk = SuccessorWalk {
            start: successor.clone(),
            at: successor,
            found: Vec::new(),
            open: true,
        };
        assert(texts(walk.found@) =~= Seq::<Seq<char>>::empty());
        walk
    }

    /// Installs what a walk has collected as the successor list.
    ///
    /// If the successor is still the node the walk began at, the list,
    /// unless it is empty, begins with the successor.
    pub fn install_successor_list(&mut self, walk: SuccessorWalk)
        requires
            old(self).wf(),
            walk@.wf(),
        ensures
            final(self).wf(),
            final(self)@ == old(self)@.with_successor_list(walk@.found),
            walk@.start == old(self)@.successor() && walk@.found.len() > 0
                ==> final(self)@.successor_list[0] == final(self)@.successor(),
    {
        assert(texts(walk.found@).len() == walk.found@.len());
        self.replace_successor_list(walk.found);
    }
}

/// The step a round of stabilization is waiting for.
#[derive(Clone, Copy, Debug, PartialEq, Eq, Structural)]
pub enum RoundStage {
    /// The successor's answer: who its predecessor is.
    Predecessor,
    /// The probe of the node the successor named.
    Probe,
    /// The delivery of the notification.
    Notify,
    /// A reply in the lookup that refreshes a finger.
    Finger,
    /// A reply in the walk that rebuilds the successor list.
    List,
    /// Nothing: the round is complete.
    Done,
    /// Nothing: the round was given up, and with `repair` the node's
    /// pointers are to be repaired before the next round.
    Abandoned { repair: bool },
}

/// What the caller of a round has to do next.
pub enum RoundStep {
    /// Ask the node for its predecessor.
    AskPredecessor(String),
    /// Probe the node and report whether it answered.
    Probe(String),
    /// Tell the node that this node may be its predecessor.
    Notify(String),
    /// Ask the node for its immediate successor.
    AskSuccessor(String),
    /// Ask the node for its closest preceding finger of the identifier.
    AskClosestPreceding(String, u64),
    /// Nothing: the round is complete.
    Finished,
    /// Nothing: the round was given up. With `repair` the node's pointers
    /// are to be repaired.
    Abandoned { repair: bool },
}

/// What happened to the step a round was waiting for.
pub enum RoundEvent {
    /// The node asked has answered with this address.
    Reply(String),
    /// The probe is over: the node answered it, or not.
    Alive(bool),
    /// The notification was delivered.
    Delivered,
    /// The request failed: the node could not be reached, or refused.
    Failed,
    /// The node answered, but not with an address.
    Malformed,
}

/// The mathematical value of a [`RoundEvent`].
pub enum RoundEventView {
    Reply(Seq<char>),
    Alive(bool),
    Delivered,
    Failed,
    Malformed,
}

impl View for RoundEvent {
    type V = RoundEventView;

    open spec fn view(&self) -> RoundEventView {
        match self {
            RoundEvent::Reply(addr) => RoundEventView::Reply(addr@),
            RoundEvent::Alive(alive) => RoundEventView::Alive(*alive),
            RoundEvent::Delivered => RoundEventView::Delivered,
            RoundEvent::Failed => RoundEventView::Failed,
            RoundEvent::Malformed => RoundEventView::Malformed,
        }
    }
}

/// A round of stabilization in progress.
pub struct Round {
    stage: RoundStage,
    successor: String,
    reported: String,
    target: String,
    finger: usize,
    lookup: Option<Lookup>,
    walk: Option<SuccessorWalk>,
}

/// The mathematical value of a [`Round`].
pub struct RoundView {
    /// The step the round is waiting for.
    pub stage: RoundStage,
    /// The successor at the beginning of the round, which is asked for its
    /// predecessor.
    pub successor: Seq<char>,
    /// The node the successor named as its predecessor.
    pub reported: Seq<char>,
    /// The node to notify: the successor after the round's first part.
    pub target: Seq<char>,
    /// The index of the finger this round refreshes.
    pub finger: int,
    /// The lookup for that finger, while it is under way.
    pub lookup: Option<LookupView>,
    /// The walk along the successors, while it is under way.
    pub walk: Option<SuccessorWalkView>,
}

impl RoundView {
    /// The finger is one of the table; a round that waits for a lookup
    /// has one that is not done, and a round that waits for the walk has
    /// one that goes on.
    pub open spec fn wf(self) -> bool {
        &&& 0 <= self.finger < FINGERS
        &&& self.stage == RoundStage::Finger ==> self.lookup is Some && self.lookup->0.wf()
            && self.lookup->0.phase != LookupPhase::Done
        &&& self.stage == RoundStage::List ==> self.walk is Some && self.walk->0.wf()
            && self.walk->0.open
    }

    /// The round of `node` that refreshes finger `finger`, at its
    /// beginning: the successor is asked for its predecessor.
    pub open spec fn begin(node: NodeView, finger: int) -> RoundView {
        RoundView {
            stage: RoundStage::Predecessor,
            successor: node.successor(),
            reported: Seq::empty(),
            target: Seq::empty(),
            finger,
            lookup: None,
            walk: None,
        }
    }

    /// The round given up.
    pub open spec fn abandoned(self, repair: bool) -> RoundView {
        RoundView { stage: RoundStage::Abandoned { repair }, lookup: None, walk: None, ..self }
    }

    /// The round with its walk in the state `walk`: it waits for the next
    /// reply, or, the walk being over, installs what was collected and is
    /// complete.
    pub open spec fn enter_list(self, node: NodeView, walk: SuccessorWalkView) -> (
        NodeView,
        RoundView,
    ) {
        if walk.open {
            (node, RoundView { stage: RoundStage::List, lookup: None, walk: Some(walk), ..self })
        } else {
            (
                node.with_successor_list(walk.found),
                RoundView { stage: RoundStage::Done, lookup: None, walk: None, ..self },
            )
        }
    }

    /// The round with its lookup in the state `lookup`: it waits for the
    /// next reply, or, the lookup being done, points the finger at the
    /// answer and begins the walk.
    pub open spec fn enter_finger(self, node: NodeView, lookup: LookupView) -> (
        NodeView,
        RoundView,
    ) {
        if lookup.phase == LookupPhase::Done {
            let pointed = node.with_finger(self.finger, lookup.at);
            self.enter_list(pointed, SuccessorWalkView::begin(pointed))
        } else {
            (
                node,
                RoundView { stage: RoundStage::Finger, lookup: Some(lookup), walk: None, ..self },
            )
        }
    }

    /// The node and the round after the pending step has ended in `event`.
    ///
    /// A failed request gives the round up and calls for a repair, except
    /// in the walk, which it merely ends. An event that does not answer the
    /// pending step gives the round up without a repair.
    pub open spec fn advance(self, node: NodeView, event: RoundEventView) -> (NodeView, RoundView) {
        match self.stage {
            RoundStage::Predecessor => match event {
                RoundEventView::Reply(p) => (
                    node,
                    RoundView { stage: RoundStage::Probe, reported: p, ..self },
                ),
                RoundEventView::Failed => (node, self.abandoned(true)),
                _ => (node, self.abandoned(false)),
            },
            RoundStage::Probe => match event {
                RoundEventView::Alive(alive) => {
                    let settled = node.stabilized(self.successor, self.reported, alive);
                    (
                        settled,
                        RoundView { stage: RoundStage::Notify, target: settled.successor(), ..self },
                    )
                },
                _ => (node, self.abandoned(false)),
            },
            RoundStage::Notify => match event {
                RoundEventView::Delivered => self.enter_finger(
                    node,
                    LookupView::begin(node, node.fingers[self.finger].start, LookupGoal::Successor),
                ),
                RoundEventView::Failed => (node, self.abandoned(true)),
                _ => (node, self.abandoned(false)),
            },
            RoundStage::Finger => match event {
                RoundEventView::Reply(addr) => self.enter_finger(
                    node,
                    self.lookup->0.advance(node, addr),
                ),
                RoundEventView::Failed => (node, self.abandoned(true)),
                _ => (node, self.abandoned(false)),
            },
            RoundStage::List => match event {
                RoundEventView::Reply(addr) => self.enter_list(
                    node,
                    self.walk->0.record(Some(addr)),
                ),
                RoundEventView::Failed => self.enter_list(node, self.walk->0.record(None)),
                _ => (node, self.abandoned(false)),
            },
            RoundStage::Done => (node, self),
            RoundStage::Abandoned { .. } => (node, self),
        }
    }
}

impl RoundView {
    /// A round that completes leaves the successor list in step with
    /// the successor: unless the list is empty, it begins with the
    /// successor, provided that the successor is still the one the walk
    /// began at.
    pub proof fn lemma_completed_round_reconciles(self, node: NodeView, event: RoundEventView)
        requires
            self.wf(),
            node.wf(),
            self.stage == RoundStage::List ==> self.walk->0.start == node.successor(),
            self.stage != RoundStage::Done,
            self.advance(node, event).1.stage == RoundStage::Done,
        ensures
            self.stage == RoundStage::List,
            self.advance(node, event).0.successor_list.len() > 0 ==> self.advance(
                node,
                event,
            ).0.successor_list[0] == self.advance(node, event).0.successor(),
    {
    }
}

impl View for Round {
    type V = RoundView;

    closed spec fn view(&self) -> RoundView {
        RoundView {
            stage: self.stage,
            successor: self.successor@,
            reported: self.reported@,
            target: self.target@,
            finger: self.finger as int,
            lookup: match self.lookup {
                Some(l) => Some(l@),
                None => None,
            },
            walk: match self.walk {
                Some(w) => Some(w@),
                None => None,
            },
        }
    }
}

impl Round {
    /// What the caller has to do next.
    pub fn step(&self) -> (step: RoundStep)
        requires
            self@.wf(),
        ensures
            match step {
                RoundStep::AskPredecessor(node) => self@.stage == RoundStage::Predecessor && node@
                    == self@.successor,
                RoundStep::Probe(node) => self@.stage == RoundStage::Probe && node@
                    == self@.reported,
                RoundStep::Notify(node) => self@.stage == RoundStage::Notify && node@
                    == self@.target,
                RoundStep::AskSuccessor(node) => {
                    ||| self@.stage == RoundStage::Finger && (self@.lookup->0.phase
                        == LookupPhase::Successor || self@.lookup->0.phase == LookupPhase::Owner)
                        && node@ == self@.lookup->0.at
                    ||| self@.stage == RoundStage::List && node@ == self@.walk->0.at
                },
                RoundStep::AskClosestPreceding(node, id) => self@.stage == RoundStage::Finger
                    && self@.lookup->0.phase == LookupPhase::Closer && node@ == self@.lookup->0.at
                    && id == self@.lookup->0.id,
                RoundStep::Finished => self@.stage == RoundStage::Done,
                RoundStep::Abandoned { repair } => self@.stage == (RoundStage::Abandoned {
                    repair,
                }),
            },
    {
        match self.stage {
            RoundStage::Predecessor => RoundStep::AskPredecessor(self.successor.clone()),
            RoundStage::Probe => RoundStep::Probe(self.reported.clone()),
            RoundStage::Notify => RoundStep::Notify(self.target.clone()),
            RoundStage::Finger => match &self.lookup {
                Some(lookup) => match lookup.step() {
                    LookupStep::AskSuccessor(node) => RoundStep::AskSuccessor(node),
                    LookupStep::AskClosestPreceding(node, id) => RoundStep::AskClosestPreceding(
                        node,
                        id,
                    ),
                    LookupStep::Found(_) => RoundStep::Finished,
                },
                None => RoundStep::Finished,
            },
            RoundStage::List => match &self.walk {
                Some(walk) => match walk.pending() {
                    Some(node) => RoundStep::AskSuccessor(node),
                    None => RoundStep::Finished,
                },
                None => RoundStep::Finished,
            },
            RoundStage::Done => RoundStep::Finished,
            RoundStage::Abandoned { repair } => RoundStep::Abandoned { repair },
        }
    }

    /// The round given up.
    fn abandon(self, repair: bool) -> (round: Round)
        requires
            self@.wf(),
        ensures
            round@ == self@.abandoned(repair),
            round@.wf(),
    {
        Round { stage: RoundStage::Abandoned { repair }, lookup: None, walk: None, ..self }
    }

    /// The round with its walk in the state `walk`.
    fn enter_list(self, node: &mut ChordNode, walk: SuccessorWalk) -> (round: Round)
        requires
            old(node).wf(),
            0 <= self@.finger < FINGERS,
            walk@.wf(),
        ensures
            final(node).wf(),
            round@.wf(),
            (final(node)@, round@) == self@.enter_list(old(node)@, walk@),
    {
        match walk.pending() {
            Some(_) => Round { stage: RoundStage::List, lookup: None, walk: Some(walk), ..self },
            None => {
                node.install_successor_list(walk);
                Round { stage: RoundStage::Done, lookup: None, walk: None, ..self }
            },
        }
    }

    /// The round with its lookup in the state `lookup`.
    fn enter_finger(self, node: &mut ChordNode, lookup: Lookup) -> (round: Round)
        requires
            old(node).wf(),
            0 <= self@.finger < FINGERS,
            lookup.wf(),
        ensures
            final(node).wf(),
            round@.wf(),
            (final(node)@, round@) == self@.enter_finger(old(node)@, lookup@),
    {
        match lookup.answer() {
            Some(answer) => {
                node.point_finger(self.finger, answer);
                let walk = node.build_successor_list();
                self.enter_list(node, walk)
            },
            None => Round {
                stage: RoundStage::Finger,
                lookup: Some(lookup),
                walk: None,
                ..self
            },
        }
    }

    /// Takes in the event in which the pending step has ended, and
    /// returns the round as it goes on.
    pub fn advance(self, node: &mut ChordNode, event: RoundEvent) -> (round: Round)
        requires
            old(node).wf(),
            self@.wf(),
        ensures
            final(node).wf(),
            round@.wf(),
            (final(node)@, round@) == self@.advance(old(node)@, event@),
    {
        match self.stage {
            RoundStage::Predecessor => match event {
                RoundEvent::Reply(p) => Round { stage: RoundStage::Probe, reported: p, ..self },
                RoundEvent::Failed => self.abandon(true),
                _ => self.abandon(false),
            },
            RoundStage::Probe => match event {
                RoundEvent::Alive(alive) => {
                    let target = node.stabilize(&self.successor, &self.reported, alive);
                    Round { stage: RoundStage::Notify, target, ..self }
                },
                _ => self.abandon(false),
            },
            RoundStage::Notify => match event {
                RoundEvent::Delivered => {
                    let lookup = node.fix_finger(self.finger);
                    self.enter_finger(node, lookup)
                },
                RoundEvent::Failed => self.abandon(true),
                _ => self.abandon(false),
            },
            RoundStage::Finger => match event {
                RoundEvent::Reply(addr) => {
                    let Round { stage, successor, reported, target, finger, lookup, walk } = self;
                    let mut lookup = lookup.unwrap();
                    lookup.advance(node, addr);
                    let rest = Round {
                        stage,
                        successor,
                        reported,
                        target,
                        finger,
                        lookup: None,
                        walk,
                    };
                    rest.enter_finger(node, lookup)
                },
                RoundEvent::Failed => self.abandon(true),
                _ => self.abandon(false),
            },
            RoundStage::List => match event {
                RoundEvent::Reply(addr) => {
                    let Round { stage, successor, reported, target, finger, lookup, walk } = self;
                    let mut walk = walk.unwrap();
                    walk.record(Some(addr));
                    let rest = Round {
                        stage,
                        successor,
                        reported,
                        target,
                        finger,
                        lookup,
                        walk: None,
                    };
                    rest.enter_list(node, walk)
                },
                RoundEvent::Failed => {
                    let Round { stage, successor, reported, target, finger, lookup, walk } = self;
                    let mut walk = walk.unwrap();
                    walk.record(None);
                    let rest = Round {
                        stage,
                        successor,
                        reported,
                        target,
                        finger,
                        lookup,
                        walk: None,
                    };
                    rest.enter_list(node, walk)
                },
                _ => self.abandon(false),
            },
            RoundStage::Done => self,
            RoundStage::Abandoned { .. } => self,
        }
    }
}

impl ChordNode {
    /// Begins a round of stabilization that refreshes entry `finger` of
    /// the finger table. The first step asks the successor for its
    /// predecessor.
    pub fn begin_round_with(&self, finger: usize) -> (round: Round)
        requires
            self.wf(),
            finger < FINGERS,
        ensures
            round@ == RoundView::begin(self@, finger as int),
            round@.wf(),
    {
        Round {
            stage: RoundStage::Predecessor,
            successor: self.get_successor(),
            reported: String::new(),
            target: String::new(),
            finger,
            lookup: None,
            walk: None,
        }
    }

    /// Begins a round of stabilization that refreshes a finger chosen at
    /// random.
    pub fn begin_round(&self) -> (round: Round)
        requires
            self.wf(),
        ensures
            exists|finger: int|
                0 <= finger < FINGERS && round@ == #[trigger] RoundView::begin(self@, finger),
            round@.wf(),
    {
        let finger = random_below(FINGERS);
        let round = self.begin_round_with(finger);
        assert(round@ == RoundView::begin(self@, finger as int));
        round
    }
}

} // verus!
