//! The walk round the ring that draws it: hop by hop along successor
//! pointers, from this node until an identifier comes up a second time.

use crate::node::ChordNode;
use crate::node::NodeView;
use crate::ring::get_identifier;
use crate::ring::identifier;
use crate::ring::M;
use vstd::prelude::*;
use vstd::set_lib::lemma_int_range;
use vstd::set_lib::lemma_len_subset;

verus! {

/// One successor pointer of the ring, by the identifiers of its ends.
#[derive(Clone, Copy, Debug, PartialEq, Eq, Structural)]
pub struct VisInfo {
    pub from: u64,
    pub to: u64,
}

impl VisInfo {
    /// The pointer from `from` to `to`.
    pub fn new(from: u64, to: u64) -> (hop: Self)
        ensures
            hop == (VisInfo { from, to }),
    {
        Self { from, to }
    }
}

/// The identifiers the hops start from.
pub open spec fn origins(hops: Seq<VisInfo>) -> Seq<int> {
    Seq::new(hops.len(), |i: int| hops[i].from as int)
}

/// A walk round the ring in progress.
pub struct RingWalk {
    at: String,
    hops: Vec<VisInfo>,
    open: bool,
}

/// The mathematical value of a [`RingWalk`].
pub struct RingWalkView {
    /// The node whose successor is asked for next.
    pub at: Seq<char>,
    /// The hops made so far, in order.
    pub hops: Seq<VisInfo>,
    /// Whether the walk goes on.
    pub open: bool,
}

impl RingWalkView {
    /// The hops form a chain that ends at the node the walk is at, no
    /// identifier is left twice, and the walk is over exactly when the last
    /// hop has led to an identifier that a hop started from.
    pub open spec fn wf(self) -> bool {
        &&& self.hops.len() > 0
        &&& forall|i: int|
            0 <= i < self.hops.len() ==> (#[trigger] self.hops[i]).from < M && self.hops[i].to < M
        &&& forall|i: int|
            0 <= i < self.hops.len() - 1 ==> (#[trigger] self.hops[i]).to == self.hops[i + 1].from
        &&& origins(self.hops).no_duplicates()
        &&& self.hops.last().to == identifier(self.at)
        &&& self.open <==> !origins(self.hops).contains(self.hops.last().to as int)
    }

    /// The walk at its beginning: the hop from the node to its successor.
    pub open spec fn begin(node: NodeView) -> RingWalkView {
        RingWalkView {
            at: node.successor(),
            hops: seq![
                VisInfo { from: node.id() as u64, to: identifier(node.successor()) },
            ],
            open: node.id() != identifier(node.successor()),
        }
    }

    /// The walk after the node it is at has named `reply` as its
    /// successor: one more hop, and the end if it led back.
    pub open spec fn record(self, reply: Seq<char>) -> RingWalkView {
        if !self.open {
            self
        } else {
            let hop = VisInfo { from: self.hops.last().to, to: identifier(reply) };
            RingWalkView {
                at: reply,
                hops: self.hops.push(hop),
                open: !origins(self.hops.push(hop)).contains(hop.to as int),
            }
        }
    }

    /// A walk makes at most `M` hops, and has ended once it has made
    /// them: no walk goes on for ever.
    pub proof fn lemma_bounded(self)
        requires
            self.wf(),
        ensures
            self.hops.len() <= M,
            self.hops.len() == M ==> !self.open,
    {
        let from = origins(self.hops);
        let ring = Set::<int>::new(|x: int| 0 <= x < M as int);
        lemma_int_range(0, M as int);
        assert(ring =~= vstd::set_lib::set_int_range(0, M as int));
        from.unique_seq_to_set();
        assert forall|x: int| from.to_set().contains(x) implies ring.contains(x) by {
            let i = choose|i: int| 0 <= i < from.len() && from[i] == x;
            assert(self.hops[i].from < M);
        }
        lemma_len_subset(from.to_set(), ring);
        if self.hops.len() == M {
            vstd::set_lib::lemma_subset_equality(from.to_set(), ring);
            assert(ring.contains(self.hops.last().to as int));
            assert(from.to_set().contains(self.hops.last().to as int));
        }
    }

    /// Recording a reply keeps the walk well formed.
    pub proof fn lemma_record_wf(self, reply: Seq<char>)
        requires
            self.wf(),
        ensures
            self.record(reply).wf(),
    {
        if self.open {
            let hop = VisInfo { from: self.hops.last().to, to: identifier(reply) };
            let after = self.hops.push(hop);
            assert(origins(after) =~= origins(self.hops).push(hop.from as int));
            assert forall|i: int| 0 <= i < after.len() - 1 implies (#[trigger] after[i]).to
                == after[i + 1].from by {
                if i < self.hops.len() - 1 {
                    assert(after[i] == self.hops[i]);
                    assert(after[i + 1] == self.hops[i + 1]);
                }
            }
            assert forall|i: int| 0 <= i < after.len() implies (#[trigger] after[i]).from < M
                && after[i].to < M by {
                if i < self.hops.len() {
                    assert(after[i] == self.hops[i]);
                }
            }
        }
    }
}

impl View for RingWalk {
    type V = RingWalkView;

    closed spec fn view(&self) -> RingWalkView {
        RingWalkView { at: self.at@, hops: self.hops@, open: self.open }
    }
}

/// Whether a hop of `hops` starts from `id`.
fn starts_from(hops: &Vec<VisInfo>, id: u64) -> (found: bool)
    ensures
        found == origins(hops@).contains(id as int),
{
    let mut i: usize = 0;
    while i < hops.len()
        invariant
            i <= hops.len(),
            forall|j: int| 0 <= j < i ==> origins(hops@)[j] != id as int,
        decreases hops.len() - i,
    {
        if hops[i].from == id {
            assert(origins(hops@)[i as int] == id as int);
            return true;
        }
        i = i + 1;
    }
    false
}

impl RingWalk {
    /// The node to ask for its successor next; `None` once the walk is
    /// over.
    pub fn pending(&self) -> (node: Option<String>)
        ensures
            match node {
                Some(n) => self@.open && n@ == self@.at,
                None => !self@.open,
            },
    {
        if self.open {
            Some(self.at.clone())
        } else {
            None
        }
    }

    /// The hops made so far.
    pub fn hops(&self) -> (hops: Vec<VisInfo>)
        ensures
            hops@ == self@.hops,
    {
        self.hops.clone()
    }

    /// Takes in the successor that the node asked has named.
    pub fn record(&mut self, reply: String)
        requires
            old(self)@.wf(),
        ensures
            final(self)@.wf(),
            final(self)@ == old(self)@.record(reply@),
    {
        proof {
            old(self)@.lemma_record_wf(reply@);
        }
        if self.open {
            let from = self.hops[self.hops.len() - 1].to;
            let to = get_identifier(&reply);
            self.hops.push(VisInfo::new(from, to));
            self.at = reply;
            self.open = !starts_from(&self.hops, to);
        }
    }
}

impl ChordNode {
    /// Begins the walk round the ring with the hop from this node to its
    /// successor.
    pub fn ring_info(&self) -> (walk: RingWalk)
        requires
            self.wf(),
        ensures
            walk@ == RingWalkView::begin(self@),
            walk@.wf(),
    {
        let own = self.self_id();
        let successor = self.get_successor();
        let to = get_identifier(&successor);
        let mut hops: Vec<VisInfo> = Vec::new();
        hops.push(VisInfo::new(own, to));
        let walk = RingWalk { at: successor, hops, open: own != to };
        proof {
            assert(walk@.hops =~= RingWalkView::begin(self@).hops);
            assert(origins(walk@.hops) =~= seq![own as int]);
            if own == to {
                assert(origins(walk@.hops)[0] == to as int);
            }
        }
        walk
    }
}

} // verus!
