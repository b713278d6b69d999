//! The player's tail: the chain of segments and the trail of past positions
//! that the segments follow.
use std::collections::VecDeque;
use vstd::prelude::*;

verus! {

/// How many recorded positions separate two consecutive tail segments.
pub const SAMPLES_PER_SEGMENT: usize = 8;

/// How many positions a fresh trail keeps.
pub const DEFAULT_HISTORY_LENGTH: usize = 100;

/// How many positions a trail keeps beyond those its segments need.
pub const HISTORY_SLACK: usize = 20;

/// The trail of the player's past positions, newest first.
pub struct PositionHistory<T> {
    pub positions: VecDeque<T>,
    pub max_length: usize,
}

/// The trail after recording `pos` in front of `positions`, keeping at most
/// `max_length` positions by dropping the oldest one.
pub open spec fn recorded<T>(positions: Seq<T>, pos: T, max_length: usize) -> Seq<T> {
    let p = seq![pos] + positions;
    if p.len() > max_length { p.drop_last() } else { p }
}

/// Recording a position never takes a trail beyond its maximum length: a trail
/// within its bound stays within it, and the newest position is the one recorded.
pub proof fn lemma_record_within_bound<T>(positions: Seq<T>, pos: T, max_length: usize)
    requires
        positions.len() <= max_length,
        max_length > 0,
    ensures
        recorded(positions, pos, max_length).len() <= max_length,
        recorded(positions, pos, max_length)[0] == pos,
{
}

/// How many positions a trail keeps for `segments` tail segments.
pub open spec fn spec_history_length(segments: int) -> int {
    (segments + 1) * SAMPLES_PER_SEGMENT + HISTORY_SLACK
}

/// Where in the trail the segment with index `segment` sits.
pub open spec fn spec_segment_sample(segment: int) -> int {
    (segment + 1) * SAMPLES_PER_SEGMENT
}

/// A trail sized for a tail reaches every segment's sample: for each segment,
/// the trail keeps a whole segment's worth of positions and the slack beyond
/// it, and each further segment makes it one segment's worth longer.
pub proof fn lemma_trail_reaches_segments(segments: int, i: int)
    requires
        0 <= i < segments,
    ensures
        spec_segment_sample(i) + SAMPLES_PER_SEGMENT + HISTORY_SLACK <= spec_history_length(segments),
        spec_segment_sample(i) < spec_history_length(segments),
        spec_history_length(segments + 1) == spec_history_length(segments) + SAMPLES_PER_SEGMENT,
        spec_segment_sample(i + 1) == spec_segment_sample(i) + SAMPLES_PER_SEGMENT,
{
    assert((segments + 2) * SAMPLES_PER_SEGMENT == (segments + 1) * SAMPLES_PER_SEGMENT + SAMPLES_PER_SEGMENT) by (nonlinear_arith);
    assert((i + 2) * SAMPLES_PER_SEGMENT == (i + 1) * SAMPLES_PER_SEGMENT + SAMPLES_PER_SEGMENT) by (nonlinear_arith);
    assert((i + 1) * SAMPLES_PER_SEGMENT <= segments * SAMPLES_PER_SEGMENT) by (nonlinear_arith)
        requires
            i + 1 <= segments,
    ;
    assert((segments + 1) * SAMPLES_PER_SEGMENT == segments * SAMPLES_PER_SEGMENT + SAMPLES_PER_SEGMENT) by (nonlinear_arith);
}

impl<T> PositionHistory<T> {
    /// An empty trail keeping the default number of positions.
    pub fn new() -> (h: PositionHistory<T>)
        ensures
            h.positions@ == Seq::<T>::empty(),
            h.max_length == DEFAULT_HISTORY_LENGTH,
    {
        PositionHistory { positions: VecDeque::new(), max_length: DEFAULT_HISTORY_LENGTH }
    }

    /// Records `pos` as the newest position, dropping the oldest one when the
    /// trail grows beyond `max_length`.
    pub fn record(&mut self, pos: T)
        ensures
            final(self).positions@ == recorded(old(self).positions@, pos, old(self).max_length),
            final(self).max_length == old(self).max_length,
    {
        self.positions.push_front(pos);
        if self.positions.len() > self.max_length {
            let _ = self.positions.pop_back();
        }
    }

    /// The position the tail segment with index `segment` follows, if the trail
    /// reaches back that far.
    pub fn sample_for_segment(&self, segment: usize) -> (r: Option<&T>)
        requires
            spec_segment_sample(segment as int) <= usize::MAX,
        ensures
            r == (if spec_segment_sample(segment as int) < self.positions@.len() {
                Some(&self.positions@[spec_segment_sample(segment as int)])
            } else {
                None
            }),
    {
        let index = (segment + 1) * SAMPLES_PER_SEGMENT;
        if index < self.positions.len() {
            Some(&self.positions[index])
        } else {
            None
        }
    }

    /// Keeps as many positions as a tail of `segments` segments needs.
    pub fn fit_to_tail(&mut self, segments: usize)
        requires
            spec_history_length(segments as int) <= usize::MAX,
        ensures
            final(self).positions@ == old(self).positions@,
            final(self).max_length == spec_history_length(segments as int),
    {
        self.max_length = (segments + 1) * SAMPLES_PER_SEGMENT + HISTORY_SLACK;
    }

    /// Forgets every position and keeps the default number from now on.
    pub fn reset(&mut self)
        ensures
            final(self).positions@ == Seq::<T>::empty(),
            final(self).max_length == DEFAULT_HISTORY_LENGTH,
    {
        self.positions.clear();
        self.max_length = DEFAULT_HISTORY_LENGTH;
    }
}

/// The segments of the player's tail, nearest first.
pub struct TailChain<E> {
    pub segments: Vec<E>,
}

impl<E> TailChain<E> {
    /// A tail without segments.
    pub fn new() -> (t: TailChain<E>)
        ensures
            t.segments@ == Seq::<E>::empty(),
    {
        TailChain { segments: Vec::new() }
    }

    /// The number of segments.
    pub fn len(&self) -> (n: usize)
        ensures
            n == self.segments@.len(),
    {
        self.segments.len()
    }

    /// Appends a segment at the end of the tail and returns its index.
    pub fn add_segment(&mut self, segment: E) -> (index: usize)
        ensures
            index == old(self).segments@.len(),
            final(self).segments@ == old(self).segments@.push(segment),
    {
        let index = self.segments.len();
        self.segments.push(segment);
        index
    }

    /// Removes every segment.
    pub fn clear(&mut self)
        ensures
            final(self).segments@ == Seq::<E>::empty(),
    {
        self.segments.clear();
    }
}

/// Grows the tail by `segment` at its end, and lets the trail keep enough
/// positions for the longer tail. Returns the index of the new segment.
pub fn grow_tail<E, T>(chain: &mut TailChain<E>, history: &mut PositionHistory<T>, segment: E) -> (index: usize)
    requires
        spec_history_length(old(chain).segments@.len() + 1int) <= usize::MAX,
    ensures
        index == old(chain).segments@.len(),
        final(chain).segments@ == old(chain).segments@.push(segment),
        final(history).positions@ == old(history).positions@,
        final(history).max_length == spec_history_length(final(chain).segments@.len() as int),
{
    let index = chain.add_segment(segment);
    history.fit_to_tail(chain.len());
    index
}

/// Sacrifices the whole tail: no segments remain and the trail starts afresh.
pub fn sacrifice_tail<E, T>(chain: &mut TailChain<E>, history: &mut PositionHistory<T>)
    ensures
        final(chain).segments@ == Seq::<E>::empty(),
        final(history).positions@ == Seq::<T>::empty(),
        final(history).max_length == DEFAULT_HISTORY_LENGTH,
{
    chain.clear();
    history.reset();
}

} // verus!
