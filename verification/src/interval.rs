//! Circular intervals on the identifier ring.

use crate::ring::ring_distance;
use crate::ring::M;
use crate::text::decimal;
use crate::text::decimal_text;
use vstd::prelude::*;
use vstd::string::StringExecFns;

verus! {

/// Whether an end of an interval belongs to it.
#[derive(Clone, Copy, Debug, PartialEq, Eq, Structural)]
pub enum Bracket {
    Open,
    Closed,
}

/// Membership of the point `x` in the forward arc from `v1` to `v2`.
///
/// With `v1 != v2` this is the modular-distance rule: `x` is measured by its
/// distance from `v1` and compared with the length of the arc. With
/// `v1 == v2` the closed interval is the single point, and an interval with
/// an open end is the whole ring, without the point when both ends are open.
pub open spec fn arc_contains(b1: Bracket, v1: int, v2: int, b2: Bracket, x: int) -> bool {
    let d_total = ring_distance(v1, v2);
    let d_x = ring_distance(v1, x);
    if v1 == v2 {
        match (b1, b2) {
            (Bracket::Closed, Bracket::Closed) => x == v1,
            (Bracket::Open, Bracket::Open) => x != v1,
            _ => true,
        }
    } else {
        match (b1, b2) {
            (Bracket::Closed, Bracket::Closed) => d_x <= d_total,
            (Bracket::Open, Bracket::Closed) => 0 < d_x <= d_total,
            (Bracket::Closed, Bracket::Open) => d_x < d_total || (d_x == 0 && d_total != 0),
            (Bracket::Open, Bracket::Open) => 0 < d_x < d_total,
        }
    }
}

/// A circular interval `<bracket1, val1, val2, bracket2>` on the ring.
#[derive(Clone, Copy)]
pub struct Interval {
    bracket1: Bracket,
    val1: u64,
    bracket2: Bracket,
    val2: u64,
}

/// The mathematical value of an [`Interval`].
pub struct IntervalView {
    pub bracket1: Bracket,
    pub val1: int,
    pub val2: int,
    pub bracket2: Bracket,
}

impl IntervalView {
    /// Whether the ring point `x` lies in the interval.
    pub open spec fn contains(self, x: int) -> bool {
        0 <= x < M && arc_contains(self.bracket1, self.val1, self.val2, self.bracket2, x)
    }

    /// The interval in mathematical notation, such as `[5,7)`.
    pub open spec fn notation(self) -> Seq<char> {
        seq![
            match self.bracket1 {
                Bracket::Open => '(',
                Bracket::Closed => '[',
            },
        ] + decimal(self.val1 as nat) + seq![','] + decimal(self.val2 as nat) + seq![
            match self.bracket2 {
                Bracket::Open => ')',
                Bracket::Closed => ']',
            },
        ]
    }
}

/// The interval `[v, v]` holds the point `v` and no other.
pub proof fn lemma_closed_point(v: int, x: int)
    requires
        0 <= v < M,
    ensures
        (IntervalView { bracket1: Bracket::Closed, val1: v, val2: v, bracket2: Bracket::Closed })
            .contains(x) <==> x == v,
{
}

/// The interval `(v, v)` holds every point of the ring but `v`.
pub proof fn lemma_open_point(v: int, x: int)
    requires
        0 <= v < M,
    ensures
        (IntervalView { bracket1: Bracket::Open, val1: v, val2: v, bracket2: Bracket::Open })
            .contains(x) <==> (0 <= x < M && x != v),
{
}

/// An interval from a point to itself with exactly one open end is the
/// whole ring.
pub proof fn lemma_half_open_point(b1: Bracket, v: int, b2: Bracket, x: int)
    requires
        0 <= v < M,
        b1 != b2,
    ensures
        (IntervalView { bracket1: b1, val1: v, val2: v, bracket2: b2 }).contains(x) <==> 0 <= x
            < M,
{
}

/// A point strictly inside the open arc from `from` to `to` is strictly
/// nearer to `to`, going forward, than `from` is; where `from == to` the arc
/// is a full turn of `M` steps.
pub proof fn lemma_inside_is_nearer(from: int, to: int, x: int)
    requires
        0 <= from < M,
        0 <= to < M,
        (IntervalView { bracket1: Bracket::Open, val1: from, val2: to, bracket2: Bracket::Open })
            .contains(x),
    ensures
        0 < ring_distance(x, to),
        from != to ==> ring_distance(x, to) < ring_distance(from, to),
        from == to ==> ring_distance(x, to) < M,
{
}

impl View for Interval {
    type V = IntervalView;

    closed spec fn view(&self) -> IntervalView {
        IntervalView {
            bracket1: self.bracket1,
            val1: self.val1 as int,
            val2: self.val2 as int,
            bracket2: self.bracket2,
        }
    }
}

impl Interval {
    /// Both ends are points of the ring.
    pub open spec fn wf(&self) -> bool {
        0 <= self@.val1 < M && 0 <= self@.val2 < M
    }

    /// The interval from `val1` to `val2` with the given brackets.
    pub fn new(bracket1: Bracket, val1: u64, val2: u64, bracket2: Bracket) -> (interval: Self)
        requires
            val1 < M,
            val2 < M,
        ensures
            interval.wf(),
            interval@ == (IntervalView {
                bracket1,
                val1: val1 as int,
                val2: val2 as int,
                bracket2,
            }),
    {
        Interval { bracket1, val1, bracket2, val2 }
    }

    /// Whether `val` lies on the forward arc from the first end to the
    /// second, in constant time.
    pub fn contains(&self, val: u64) -> (inside: bool)
        requires
            self.wf(),
        ensures
            inside == self@.contains(val as int),
    {
        if val >= M {
            return false;
        }
        let d_total: u64 = (self.val2 + M - self.val1) % M;
        let d_x: u64 = (val + M - self.val1) % M;
        assert(d_total == ring_distance(self.val1 as int, self.val2 as int));
        assert(d_x == ring_distance(self.val1 as int, val as int));
        let open1 = match self.bracket1 {
            Bracket::Open => true,
            Bracket::Closed => false,
        };
        let open2 = match self.bracket2 {
            Bracket::Open => true,
            Bracket::Closed => false,
        };
        if self.val1 == self.val2 {
            if open1 && open2 {
                val != self.val1
            } else if !open1 && !open2 {
                val == self.val1
            } else {
                true
            }
        } else {
            (if open1 { 0 < d_x } else { true }) && (if open2 { d_x < d_total } else { d_x <= d_total })
        }
    }

    /// The interval in mathematical notation, such as `[5,7)`.
    pub fn to_text(&self) -> (text: String)
        ensures
            text@ == self@.notation(),
    {
        proof {
            reveal_strlit("(");
            reveal_strlit("[");
            reveal_strlit(",");
            reveal_strlit(")");
            reveal_strlit("]");
        }
        let mut text = String::from_str(
            match self.bracket1 {
                Bracket::Open => "(",
                Bracket::Closed => "[",
            },
        );
        let first = decimal_text(self.val1);
        text.append(first.as_str());
        text.append(",");
        let second = decimal_text(self.val2);
        text.append(second.as_str());
        text.append(
            match self.bracket2 {
                Bracket::Open => ")",
                Bracket::Closed => "]",
            },
        );
        assert(text@ =~= self@.notation());
        text
    }
}

} // verus!
