//! # profile
//!
//! A storage unit for the user's flight points, and the time-based
//! dispenser that hands the engine's model the two points of the flight
//! plan that bracket a moment, so that the model can interpolate between
//! them.

use vstd::prelude::*;

verus! {

/// Timestamps never decrease along the profile.
pub open spec fn sorted<M>(v: Seq<(u32, M)>) -> bool {
    forall|i: int, j: int| 0 <= i <= j < v.len() ==> v[i].0 <= v[j].0
}

/// Point `i` and its successor bracket the moment `tim`: `tim` is past the
/// first and not past the second.
pub open spec fn brackets<M>(v: Seq<(u32, M)>, i: int, tim: u32) -> bool {
    &&& 0 <= i < v.len() - 1
    &&& v[i].0 < tim <= v[i + 1].0
}

/// The target for the moment `tim` in the profile `v`: the starting point
/// until its timestamp; nothing from the last point on; in between, the ends
/// of the segment that brackets `tim` with the time elapsed in it and its
/// length.
pub open spec fn target_at<M>(v: Seq<(u32, M)>, tim: u32) -> Option<Target<M>>
    recommends
        v.len() >= 1,
{
    if tim <= v[0].0 {
        Some(Target::Rest(v[0].1))
    } else if v.last().0 <= tim {
        None
    } else {
        let i = choose|i: int| brackets(v, i, tim);
        Some(
            Target::Between {
                from: v[i].1,
                to: v[i + 1].1,
                elapsed: (tim - v[i].0) as u32,
                span: (v[i + 1].0 - v[i].0) as u32,
            },
        )
    }
}

/// What the dispenser hands out for a moment of the flight plan.
#[derive(Debug, PartialEq, Eq)]
pub enum Target<M> {
    /// Before or at the first point: the first point as it stands.
    Rest(M),
    /// Strictly inside a segment: the segment's ends, the time elapsed since
    /// its start and its length, both in ms. The model blends the ends by
    /// `elapsed / span`.
    Between { from: M, to: M, elapsed: u32, span: u32 },
}

/// A bounded, time-ordered list of kinematic targets. Point 0 is the
/// starting point; its timestamp is the start delay.
pub struct CannedProfile<M> {
    frames: Vec<(u32, M)>,
    cap: usize,
}

impl<M> CannedProfile<M> {
    /// The points held, in order: timestamp and target.
    pub closed spec fn points(&self) -> Seq<(u32, M)> {
        self.frames@
    }

    /// The most points the profile ever holds.
    pub closed spec fn capacity(&self) -> nat {
        self.cap as nat
    }
}

impl<M: Copy> CannedProfile<M> {
    /// A profile always holds its starting point, stays within its capacity
    /// and keeps its points in time order.
    pub open spec fn wf(&self) -> bool {
        &&& 1 <= self.points().len() <= self.capacity()
        &&& sorted(self.points())
    }

    /// Creates a profile of at most `cap` points whose starting point lies
    /// at `delay` and holds `rest`.
    pub fn new(delay: u32, cap: usize, rest: M) -> (p: Self)
        requires
            cap > 0,
        ensures
            p.wf(),
            p.points() == seq![(delay, rest)],
            p.capacity() == cap,
    {
        let mut frames: Vec<(u32, M)> = Vec::new();
        frames.push((delay, rest));
        CannedProfile { frames, cap }
    }

    /// Number of points held.
    pub fn count(&self) -> (n: usize)
        ensures
            n == self.points().len(),
    {
        self.frames.len()
    }

    /// The point at `i`: its timestamp and its target.
    pub fn frame(&self, i: usize) -> (f: (u32, M))
        requires
            i < self.points().len(),
        ensures
            f == self.points()[i as int],
    {
        self.frames[i]
    }

    /// The most recent point.
    pub fn last(&self) -> (f: (u32, M))
        requires
            self.wf(),
        ensures
            f == self.points().last(),
    {
        self.frames[self.frames.len() - 1]
    }

    /// Appends a point `dur` ms after the most recent one. A full profile
    /// ignores the call.
    pub fn append(&mut self, f: M, dur: u32)
        requires
            old(self).wf(),
            old(self).points().len() < old(self).capacity() ==> old(self).points().last().0 + dur <= u32::MAX,
        ensures
            final(self).wf(),
            final(self).capacity() == old(self).capacity(),
            old(self).points().len() < old(self).capacity() ==> final(self).points() == old(self).points().push(
                ((old(self).points().last().0 + dur) as u32, f),
            ),
            old(self).points().len() >= old(self).capacity() ==> final(self).points() == old(self).points(),
    {
        if self.frames.len() < self.cap {
            let prev = self.frames[self.frames.len() - 1];
            let ts = prev.0 + dur;
            self.frames.push((ts, f));
            proof {
                let v = self.frames@;
                assert forall|i: int, j: int| 0 <= i <= j < v.len() implies v[i].0 <= v[j].0 by {
                    if j == v.len() - 1 {
                        assert(old(self).points()[i].0 <= old(self).points().last().0 || i == j);
                    }
                }
            }
        }
    }

    /// The target for the moment `tim`: the starting point until its
    /// timestamp, then the segment that brackets `tim`, and nothing once
    /// the last point is reached.
    pub fn linearize(&self, tim: u32) -> (r: Option<Target<M>>)
        requires
            self.wf(),
        ensures
            r == target_at(self.points(), tim),
    {
        let n = self.frames.len();
        let first = self.frames[0];
        if tim <= first.0 {
            return Some(Target::Rest(first.1));
        } else if tim >= self.frames[n - 1].0 {
            return None;
        }
        let mut i: usize = 0;
        while i < n - 1 && self.frames[i + 1].0 < tim
            invariant
                n == self.points().len(),
                self.wf(),
                self.points()[0].0 < tim < self.points().last().0,
                i < n,
                self.points()[i as int].0 < tim,
            decreases n - i,
        {
            i += 1;
        }
        let p0 = self.frames[i];
        let p1 = self.frames[i + 1];
        let r = Some(Target::Between { from: p0.1, to: p1.1, elapsed: tim - p0.0, span: p1.0 - p0.0 });
        proof {
            assert(brackets(self.points(), i as int, tim));
            let j = choose|j: int| brackets(self.points(), j, tim);
            lemma_bracket_unique(self.points(), i as int, j, tim);
        }
        r
    }
}

/// In a time-ordered profile at most one segment brackets a moment, so the
/// dispenser's answer is determined.
pub proof fn lemma_bracket_unique<M>(v: Seq<(u32, M)>, i: int, j: int, tim: u32)
    requires
        sorted(v),
        brackets(v, i, tim),
        brackets(v, j, tim),
    ensures
        i == j,
{
    if i < j {
        assert(v[i + 1].0 <= v[j].0);
    } else if j < i {
        assert(v[j + 1].0 <= v[i].0);
    }
}

/// Inside the plan the dispenser always finds a segment: between the first
/// point (exclusive) and the last one (inclusive) some segment brackets
/// every moment.
pub proof fn lemma_bracket_exists<M>(v: Seq<(u32, M)>, tim: u32)
    requires
        v.len() >= 1,
        v[0].0 < tim <= v.last().0,
    ensures
        exists|i: int| brackets(v, i, tim),
    decreases v.len(),
{
    let n = v.len() as int;
    if v[n - 2].0 < tim {
        assert(brackets(v, n - 2, tim));
    } else {
        let w = v.drop_last();
        lemma_bracket_exists(w, tim);
        let i = choose|i: int| brackets(w, i, tim);
        assert(brackets(v, i, tim));
    }
}

/// What the dispenser answers, in terms of the points alone: the starting
/// point until its timestamp; nothing from the last point on; in between,
/// the two consecutive points whose timestamps enclose the moment (past the
/// first, not past the second), with the time elapsed since the first and
/// the segment's length, so that `0 < elapsed <= span`.
pub proof fn lemma_target_at_meaning<M>(v: Seq<(u32, M)>, tim: u32)
    requires
        v.len() >= 1,
    ensures
        tim <= v[0].0 ==> target_at(v, tim) == Some(Target::Rest(v[0].1)),
        v[0].0 < tim && v[v.len() - 1].0 <= tim ==> target_at(v, tim) is None,
        v[0].0 < tim < v[v.len() - 1].0 ==> (target_at(v, tim) matches Some(
            Target::Between { from, to, elapsed, span },
        ) && exists|i: int|
            #![trigger v[i]]
            {
                &&& 0 <= i < v.len() - 1
                &&& v[i].0 < tim <= v[i + 1].0
                &&& from == v[i].1
                &&& to == v[i + 1].1
                &&& elapsed == tim - v[i].0
                &&& span == v[i + 1].0 - v[i].0
                &&& 0 < elapsed <= span
            }),
{
    if v[0].0 < tim < v[v.len() - 1].0 {
        lemma_bracket_exists(v, tim);
        let i = choose|i: int| brackets(v, i, tim);
        assert(v[i].0 < tim <= v[i + 1].0);
    }
}

/// A bracketing segment is never empty: the model's blend factor
/// `elapsed / span` is always defined and lies in (0, 1].
pub proof fn lemma_bracket_span<M>(v: Seq<(u32, M)>, i: int, tim: u32)
    requires
        brackets(v, i, tim),
    ensures
        v[i + 1].0 - v[i].0 > 0,
        0 < tim - v[i].0 <= v[i + 1].0 - v[i].0,
{
}

} // verus!
