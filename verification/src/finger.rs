//! Entries of the finger table.

use crate::interval::Bracket;
use crate::interval::Interval;
use crate::interval::IntervalView;
use crate::ring::finger_start;
use crate::ring::get_identifier;
use crate::ring::get_start;
use crate::ring::identifier;
use crate::ring::M;
use vstd::prelude::*;

verus! {

/// One routing entry: the ring point it starts at, the interval up to the
/// next entry's start, and the node believed to succeed the start.
pub struct FingerTableEntry {
    start: u64,
    interval: Interval,
    successor: u64,
    node_ip: String,
}

/// The mathematical value of a [`FingerTableEntry`].
pub struct FingerView {
    pub start: int,
    pub interval: IntervalView,
    pub successor_id: int,
    pub successor: Seq<char>,
}

impl FingerView {
    /// Entry `k` of a node with identifier `n`, pointing at `successor`.
    pub open spec fn fresh(n: int, k: nat, successor: Seq<char>) -> FingerView {
        FingerView {
            start: finger_start(n, k),
            interval: IntervalView {
                bracket1: Bracket::Closed,
                val1: finger_start(n, k),
                val2: finger_start(n, k + 1),
                bracket2: Bracket::Open,
            },
            successor_id: identifier(successor) as int,
            successor,
        }
    }

    /// The entry with its successor replaced by `successor`.
    pub open spec fn pointing_at(self, successor: Seq<char>) -> FingerView {
        FingerView { successor_id: identifier(successor) as int, successor, ..self }
    }

    /// The entry is entry `k` of a node with identifier `n`: it starts at
    /// `(n + 2^k) mod M`, spans up to the next start, and stores the
    /// identifier of the address it points at.
    pub open spec fn is_finger_of(self, n: int, k: nat) -> bool {
        self == FingerView::fresh(n, k, self.successor)
    }
}

impl View for FingerTableEntry {
    type V = FingerView;

    closed spec fn view(&self) -> FingerView {
        FingerView {
            start: self.start as int,
            interval: self.interval@,
            successor_id: self.successor as int,
            successor: self.node_ip@,
        }
    }
}

impl FingerTableEntry {
    /// An entry made of the given parts.
    pub fn new(start: u64, interval: Interval, successor: u64, node_ip: String) -> (entry: Self)
        ensures
            entry@ == (FingerView {
                start: start as int,
                interval: interval@,
                successor_id: successor as int,
                successor: node_ip@,
            }),
    {
        FingerTableEntry { start, interval, successor, node_ip }
    }

    /// Entry `k` of the node with identifier `n`, pointing at `node_ip`.
    pub fn fresh(n: u64, k: u32, node_ip: String) -> (entry: Self)
        ensures
            entry@ == FingerView::fresh(n as int, k as nat, node_ip@),
    {
        let start = get_start(n, k);
        let next = if k == u32::MAX {
            proof {
                crate::ring::lemma_starts_coincide(n as int, k as nat, k as nat + 1);
            }
            start
        } else {
            get_start(n, k + 1)
        };
        let interval = Interval::new(Bracket::Closed, start, next, Bracket::Open);
        let successor = get_identifier(&node_ip);
        FingerTableEntry { start, interval, successor, node_ip }
    }

    /// The ring point at which the entry starts.
    pub fn start(&self) -> (start: u64)
        ensures
            start == self@.start,
    {
        self.start
    }

    /// The identifier of the node the entry points at.
    pub fn successor_id(&self) -> (id: u64)
        ensures
            id == self@.successor_id,
    {
        self.successor
    }

    /// The address of the node the entry points at.
    pub fn node_ip(&self) -> (addr: &String)
        ensures
            addr@ == self@.successor,
    {
        &self.node_ip
    }

    /// The interval from this entry's start up to the next entry's start.
    pub fn interval(&self) -> (interval: Interval)
        ensures
            interval@ == self@.interval,
    {
        self.interval
    }

    /// The same entry pointing at `node_ip`.
    pub fn pointing_at(&self, node_ip: String) -> (entry: Self)
        ensures
            entry@ == self@.pointing_at(node_ip@),
    {
        let successor = get_identifier(&node_ip);
        FingerTableEntry { start: self.start, interval: self.interval, successor, node_ip }
    }
}

} // verus!
