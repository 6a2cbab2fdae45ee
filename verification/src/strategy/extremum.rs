use std::collections::VecDeque;
use vstd::prelude::*;

verus! {

/// A recorded high or low together with the time at which it was recorded.
#[derive(Clone, Copy, Debug, PartialEq, Eq, Structural)]
pub struct ExtremumPoint {
    pub value: i64,
    pub timestamp: i64,
}

/// Which end of the value range a tracker follows.
#[derive(Clone, Copy, Debug, PartialEq, Eq, Structural)]
pub enum ExtremumKind {
    Highest,
    Lowest,
}

impl ExtremumKind {
    /// Rank of a value: the tracker looks for the greatest rank, so the
    /// lowest-value tracker ranks values by their negation.
    pub open spec fn rank(self, value: int) -> int {
        match self {
            ExtremumKind::Highest => value,
            ExtremumKind::Lowest => -value,
        }
    }

    /// Whether `a` is strictly more extreme than `b`.
    pub open spec fn beats(self, a: int, b: int) -> bool {
        self.rank(a) > self.rank(b)
    }

    /// Executable form of [`ExtremumKind::beats`].
    pub fn more_extreme(self, a: i64, b: i64) -> (r: bool)
        ensures
            r == self.beats(a as int, b as int),
    {
        match self {
            ExtremumKind::Highest => a > b,
            ExtremumKind::Lowest => a < b,
        }
    }
}

/// Ranks never rise from front to back.
pub open spec fn ordered(kind: ExtremumKind, s: Seq<ExtremumPoint>) -> bool {
    forall|i: int, j: int|
        0 <= i < j < s.len() ==> kind.rank(#[trigger] s[i].value as int) >= kind.rank(
            #[trigger] s[j].value as int,
        )
}

/// Ranks fall strictly from front to back.
pub open spec fn strictly_ordered(kind: ExtremumKind, s: Seq<ExtremumPoint>) -> bool {
    forall|i: int, j: int|
        0 <= i < j < s.len() ==> kind.rank(#[trigger] s[i].value as int) > kind.rank(
            #[trigger] s[j].value as int,
        )
}

/// Number of points, counted from the front, that survive the arrival of
/// `value`: the points behind them are all beaten by it.
pub open spec fn retained(kind: ExtremumKind, s: Seq<ExtremumPoint>, value: int) -> nat
    decreases s.len(),
{
    if s.len() > 0 && kind.beats(value, s.last().value as int) {
        retained(kind, s.drop_last(), value)
    } else {
        s.len()
    }
}

/// The points after `p` has arrived.
pub open spec fn after_update(kind: ExtremumKind, s: Seq<ExtremumPoint>, p: ExtremumPoint) -> Seq<
    ExtremumPoint,
> {
    s.take(retained(kind, s, p.value as int) as int).push(p)
}

/// Number of points at the front that are older than `threshold`.
pub open spec fn expired(s: Seq<ExtremumPoint>, threshold: int) -> nat
    decreases s.len(),
{
    if s.len() > 0 && s[0].timestamp < threshold {
        1 + expired(s.drop_first(), threshold)
    } else {
        0
    }
}

/// The points after those older than `threshold` have left the front.
pub open spec fn after_evict(s: Seq<ExtremumPoint>, threshold: int) -> Seq<ExtremumPoint> {
    s.skip(expired(s, threshold) as int)
}

/// `seed[i]` holds the most extreme value of the seed, and no earlier point
/// holds the same value.
pub open spec fn is_first_extremum(kind: ExtremumKind, seed: Seq<ExtremumPoint>, i: int) -> bool {
    &&& 0 <= i < seed.len()
    &&& forall|j: int| 0 <= j < seed.len() ==> !kind.beats(#[trigger] seed[j].value as int, seed[i].value as int)
    &&& forall|j: int| 0 <= j < i ==> #[trigger] seed[j].value != seed[i].value
}

/// What `retained` counts, said without recursion.
pub proof fn lemma_retained(kind: ExtremumKind, s: Seq<ExtremumPoint>, value: int)
    ensures
        retained(kind, s, value) <= s.len(),
        forall|i: int|
            retained(kind, s, value) <= i < s.len() ==> kind.beats(value, #[trigger] s[i].value as int),
        retained(kind, s, value) > 0 ==> !kind.beats(
            value,
            s[retained(kind, s, value) - 1].value as int,
        ),
    decreases s.len(),
{
    if s.len() > 0 && kind.beats(value, s.last().value as int) {
        let front = s.drop_last();
        lemma_retained(kind, front, value);
        assert forall|i: int| retained(kind, s, value) <= i < s.len() implies kind.beats(
            value,
            #[trigger] s[i].value as int,
        ) by {
            if i < front.len() {
                assert(s[i] == front[i]);
            }
        }
        if retained(kind, s, value) > 0 {
            assert(s[retained(kind, s, value) - 1] == front[retained(kind, front, value) - 1]);
        }
    }
}

/// What `expired` counts, said without recursion.
pub proof fn lemma_expired(s: Seq<ExtremumPoint>, threshold: int)
    ensures
        expired(s, threshold) <= s.len(),
        forall|i: int| 0 <= i < expired(s, threshold) ==> (#[trigger] s[i]).timestamp < threshold,
        expired(s, threshold) < s.len() ==> s[expired(s, threshold) as int].timestamp >= threshold,
    decreases s.len(),
{
    if s.len() > 0 && s[0].timestamp < threshold {
        let rest = s.drop_first();
        lemma_expired(rest, threshold);
        assert forall|i: int| 0 <= i < expired(s, threshold) implies (#[trigger] s[i]).timestamp
            < threshold by {
            if i > 0 {
                assert(s[i] == rest[i - 1]);
            }
        }
        if expired(s, threshold) < s.len() {
            assert(s[expired(s, threshold) as int] == rest[expired(rest, threshold) as int]);
        }
    }
}

/// The extreme value of a trailing time window, kept in a deque whose ranks
/// never rise from front to back: the front is the current extremum.
pub struct RollingExtremumTracker {
    kind: ExtremumKind,
    points: VecDeque<ExtremumPoint>,
}

impl View for RollingExtremumTracker {
    type V = Seq<ExtremumPoint>;

    closed spec fn view(&self) -> Seq<ExtremumPoint> {
        self.points@
    }
}

impl RollingExtremumTracker {
    /// The end of the value range that this tracker follows.
    pub closed spec fn spec_kind(&self) -> ExtremumKind {
        self.kind
    }

    /// The deque invariant.
    pub open spec fn wf(&self) -> bool {
        ordered(self.spec_kind(), self@)
    }

    /// A tracker that holds the single most extreme point of `seed`; among
    /// points of equal value the earliest in the seed is kept.
    pub fn initialize(kind: ExtremumKind, seed: &Vec<ExtremumPoint>) -> (tracker: Self)
        requires
            seed.len() >= 1,
        ensures
            tracker.wf(),
            tracker.spec_kind() == kind,
            tracker@.len() == 1,
            exists|i: int| is_first_extremum(kind, seed@, i) && tracker@[0] == seed@[i],
    {
        let mut best: ExtremumPoint = seed[0];
        let ghost mut at: int = 0;
        let mut i: usize = 1;
        while i < seed.len()
            invariant
                1 <= i <= seed.len(),
                0 <= at < i,
                best == seed@[at],
                forall|j: int| 0 <= j < i ==> !kind.beats(#[trigger] seed@[j].value as int, best.value as int),
                forall|j: int| 0 <= j < at ==> #[trigger] seed@[j].value != best.value,
            decreases seed.len() - i,
        {
            if kind.more_extreme(seed[i].value, best.value) {
                best = seed[i];
                proof {
                    at = i as int;
                }
            }
            i = i + 1;
        }
        let mut points: VecDeque<ExtremumPoint> = VecDeque::new();
        points.push_back(best);
        assert(is_first_extremum(kind, seed@, at));
        RollingExtremumTracker { kind, points }
    }

    pub fn kind(&self) -> (kind: ExtremumKind)
        ensures
            kind == self.spec_kind(),
    {
        self.kind
    }

    pub fn len(&self) -> (n: usize)
        ensures
            n == self@.len(),
    {
        self.points.len()
    }

    pub fn is_empty(&self) -> (empty: bool)
        ensures
            empty == (self@.len() == 0),
    {
        self.points.len() == 0
    }

    /// Records a new point: the points at the back that it beats leave, then
    /// it joins the back.
    pub fn update(&mut self, value: i64, timestamp: i64)
        requires
            old(self).wf(),
        ensures
            final(self).wf(),
            final(self).spec_kind() == old(self).spec_kind(),
            final(self)@ == after_update(
                old(self).spec_kind(),
                old(self)@,
                ExtremumPoint { value, timestamp },
            ),
    {
        let ghost before = self.points@;
        while self.points.len() > 0 && self.kind.more_extreme(
            value,
            self.points[self.points.len() - 1].value,
        )
            invariant
                self.kind == old(self).kind,
                self.points@.len() <= before.len(),
                self.points@ == before.take(self.points@.len() as int),
                retained(self.kind, self.points@, value as int) == retained(
                    self.kind,
                    before,
                    value as int,
                ),
            decreases self.points@.len(),
        {
            proof {
                assert(self.points@.drop_last() == before.take(self.points@.len() - 1));
            }
            self.points.pop_back();
        }
        self.points.push_back(ExtremumPoint { value, timestamp });
        proof {
            lemma_update_keeps_order(
                self.kind,
                before,
                ExtremumPoint { value, timestamp },
            );
        }
    }

    /// Drops from the front every point older than `time_threshold`.
    pub fn evict(&mut self, time_threshold: i64)
        requires
            old(self).wf(),
        ensures
            final(self).wf(),
            final(self).spec_kind() == old(self).spec_kind(),
            final(self)@ == after_evict(old(self)@, time_threshold as int),
    {
        let ghost before = self.points@;
        let ghost mut gone: int = 0;
        while self.points.len() > 0 && self.points[0].timestamp < time_threshold
            invariant
                self.kind == old(self).kind,
                0 <= gone <= before.len(),
                self.points@ == before.skip(gone),
                expired(before, time_threshold as int) == gone + expired(
                    self.points@,
                    time_threshold as int,
                ),
            decreases self.points@.len(),
        {
            proof {
                assert(self.points@.drop_first() == before.skip(gone + 1));
                gone = gone + 1;
            }
            self.points.pop_front();
        }
    }

    /// The point at `index`, counted from the front.
    pub fn point(&self, index: usize) -> (found: Option<ExtremumPoint>)
        ensures
            found == if index < self@.len() {
                Some(self@[index as int])
            } else {
                None
            },
    {
        if index < self.points.len() {
            Some(self.points[index])
        } else {
            None
        }
    }

    /// The extreme value of the window: the value at the front, which no
    /// point of a well-formed deque beats. The deque must hold a point.
    pub fn current(&self) -> (value: i64)
        requires
            self@.len() > 0,
        ensures
            value == self@[0].value,
            self.wf() ==> forall|i: int|
                0 <= i < self@.len() ==> !self.spec_kind().beats(
                    (#[trigger] self@[i]).value as int,
                    value as int,
                ),
    {
        self.points[0].value
    }
}

/// An update keeps the ranks from rising, whatever arrives.
pub proof fn lemma_update_keeps_order(kind: ExtremumKind, s: Seq<ExtremumPoint>, p: ExtremumPoint)
    requires
        ordered(kind, s),
    ensures
        ordered(kind, after_update(kind, s, p)),
{
    lemma_retained(kind, s, p.value as int);
    let k = retained(kind, s, p.value as int) as int;
    let t = after_update(kind, s, p);
    assert forall|i: int, j: int| 0 <= i < j < t.len() implies kind.rank(
        #[trigger] t[i].value as int,
    ) >= kind.rank(#[trigger] t[j].value as int) by {
        if j < k {
            assert(t[i] == s[i] && t[j] == s[j]);
        } else {
            assert(t[i] == s[i]);
            assert(kind.rank(s[i].value as int) >= kind.rank(s[k - 1].value as int));
        }
    }
}

/// An eviction keeps the ranks from rising.
pub proof fn lemma_evict_keeps_order(kind: ExtremumKind, s: Seq<ExtremumPoint>, threshold: int)
    requires
        ordered(kind, s),
    ensures
        ordered(kind, after_evict(s, threshold)),
{
    lemma_expired(s, threshold);
    let gone = expired(s, threshold) as int;
    let t = after_evict(s, threshold);
    assert forall|i: int, j: int| 0 <= i < j < t.len() implies kind.rank(
        #[trigger] t[i].value as int,
    ) >= kind.rank(#[trigger] t[j].value as int) by {
        assert(t[i] == s[i + gone] && t[j] == s[j + gone]);
    }
}

/// Strict order survives an update when the arriving value is not already
/// held: a point is never beaten by an equal value, so an equal value at the
/// back would stay beside the new point.
pub proof fn lemma_update_keeps_strict_order(
    kind: ExtremumKind,
    s: Seq<ExtremumPoint>,
    p: ExtremumPoint,
)
    requires
        strictly_ordered(kind, s),
        forall|i: int| 0 <= i < s.len() ==> #[trigger] s[i].value != p.value,
    ensures
        strictly_ordered(kind, after_update(kind, s, p)),
{
    lemma_retained(kind, s, p.value as int);
    let k = retained(kind, s, p.value as int) as int;
    let t = after_update(kind, s, p);
    assert forall|i: int, j: int| 0 <= i < j < t.len() implies kind.rank(
        #[trigger] t[i].value as int,
    ) > kind.rank(#[trigger] t[j].value as int) by {
        if j < k {
            assert(t[i] == s[i] && t[j] == s[j]);
        } else {
            assert(t[i] == s[i]);
            assert(s[k - 1].value != p.value);
            if i < k - 1 {
                assert(kind.rank(s[i].value as int) > kind.rank(s[k - 1].value as int));
            }
        }
    }
}

/// Strict order survives an eviction.
pub proof fn lemma_evict_keeps_strict_order(
    kind: ExtremumKind,
    s: Seq<ExtremumPoint>,
    threshold: int,
)
    requires
        strictly_ordered(kind, s),
    ensures
        strictly_ordered(kind, after_evict(s, threshold)),
{
    lemma_expired(s, threshold);
    let gone = expired(s, threshold) as int;
    let t = after_evict(s, threshold);
    assert forall|i: int, j: int| 0 <= i < j < t.len() implies kind.rank(
        #[trigger] t[i].value as int,
    ) > kind.rank(#[trigger] t[j].value as int) by {
        assert(t[i] == s[i + gone] && t[j] == s[j + gone]);
    }
}

/// Timestamps never fall from one point to the next.
pub open spec fn chronological(points: Seq<ExtremumPoint>) -> bool {
    forall|i: int, j: int|
        0 <= i < j < points.len() ==> (#[trigger] points[i]).timestamp <= (
        #[trigger] points[j]).timestamp
}

/// After an eviction no point of a deque in time order is older than the
/// threshold.
pub proof fn lemma_evict_leaves_no_expired(s: Seq<ExtremumPoint>, threshold: int)
    requires
        chronological(s),
    ensures
        forall|i: int|
            0 <= i < after_evict(s, threshold).len() ==> (#[trigger] after_evict(
                s,
                threshold,
            )[i]).timestamp >= threshold,
{
    lemma_expired(s, threshold);
    let gone = expired(s, threshold) as int;
    let t = after_evict(s, threshold);
    assert forall|i: int| 0 <= i < t.len() implies (#[trigger] t[i]).timestamp >= threshold by {
        assert(t[i] == s[i + gone]);
        assert(s[gone].timestamp <= s[i + gone].timestamp);
    }
}

/// The deque of a tracker that started empty and was fed `points` one by
/// one, each after an eviction at `window` before its own timestamp.
pub open spec fn replay(kind: ExtremumKind, points: Seq<ExtremumPoint>, window: int) -> Seq<
    ExtremumPoint,
>
    decreases points.len(),
{
    if points.len() == 0 {
        Seq::empty()
    } else {
        let p = points.last();
        after_update(
            kind,
            after_evict(replay(kind, points.drop_last(), window), p.timestamp - window),
            p,
        )
    }
}

/// `points[i]` lies within `window` of the latest point.
pub open spec fn in_window(points: Seq<ExtremumPoint>, window: int, i: int) -> bool {
    0 <= i < points.len() && points[i].timestamp >= points.last().timestamp - window
}

/// `value` is what a scan of the whole window finds: some point of the
/// window holds it and no point of the window beats it.
pub open spec fn is_window_extremum(
    kind: ExtremumKind,
    points: Seq<ExtremumPoint>,
    window: int,
    value: int,
) -> bool {
    &&& exists|i: int| #[trigger] in_window(points, window, i) && points[i].value == value
    &&& forall|i: int| #[trigger]
        in_window(points, window, i) ==> !kind.beats(points[i].value as int, value)
}

/// `e` was fed and is not older than `threshold`.
spec fn admitted(points: Seq<ExtremumPoint>, threshold: int, e: ExtremumPoint) -> bool {
    points.contains(e) && e.timestamp >= threshold
}

/// `e` is no older than `p` and not beaten by it.
spec fn answers(kind: ExtremumKind, e: ExtremumPoint, p: ExtremumPoint) -> bool {
    !kind.beats(p.value as int, e.value as int) && e.timestamp >= p.timestamp
}

/// The deque holds a point that answers `p`.
spec fn answered(kind: ExtremumKind, d: Seq<ExtremumPoint>, p: ExtremumPoint) -> bool {
    exists|k: int| 0 <= k < d.len() && #[trigger] answers(kind, d[k], p)
}

/// What the deque `d` owes to the points fed so far, given the latest
/// eviction threshold: it is ordered by rank and by time, holds only points
/// that were fed and are not older than the threshold, and answers every fed
/// point that is not older than the threshold.
spec fn covers(
    kind: ExtremumKind,
    d: Seq<ExtremumPoint>,
    points: Seq<ExtremumPoint>,
    threshold: int,
) -> bool {
    &&& ordered(kind, d)
    &&& chronological(d)
    &&& forall|k: int| 0 <= k < d.len() ==> #[trigger] admitted(points, threshold, d[k])
    &&& forall|i: int|
        0 <= i < points.len() && points[i].timestamp >= threshold ==> #[trigger] answered(
            kind,
            d,
            points[i],
        )
}

proof fn lemma_evict_covers(
    kind: ExtremumKind,
    d: Seq<ExtremumPoint>,
    points: Seq<ExtremumPoint>,
    threshold: int,
    later: int,
)
    requires
        covers(kind, d, points, threshold),
        threshold <= later,
    ensures
        covers(kind, after_evict(d, later), points, later),
{
    lemma_expired(d, later);
    lemma_evict_keeps_order(kind, d, later);
    let gone = expired(d, later) as int;
    let t = after_evict(d, later);
    assert forall|i: int, j: int| 0 <= i < j < t.len() implies (#[trigger] t[i]).timestamp <= (
    #[trigger] t[j]).timestamp by {
        assert(t[i] == d[i + gone] && t[j] == d[j + gone]);
    }
    assert forall|k: int| 0 <= k < t.len() implies #[trigger] admitted(points, later, t[k]) by {
        assert(t[k] == d[k + gone]);
        assert(admitted(points, threshold, d[k + gone]));
        assert(d[gone].timestamp <= d[k + gone].timestamp);
    }
    assert forall|i: int|
        0 <= i < points.len() && points[i].timestamp >= later implies #[trigger] answered(
        kind,
        t,
        points[i],
    ) by {
        assert(answered(kind, d, points[i]));
        let k0 = choose|k: int| 0 <= k < d.len() && #[trigger] answers(kind, d[k], points[i]);
        if k0 < gone {
            assert(d[k0].timestamp < later);
        }
        assert(t[k0 - gone] == d[k0]);
        assert(answers(kind, t[k0 - gone], points[i]));
    }
}

proof fn lemma_update_covers(
    kind: ExtremumKind,
    d: Seq<ExtremumPoint>,
    points: Seq<ExtremumPoint>,
    threshold: int,
    p: ExtremumPoint,
)
    requires
        covers(kind, d, points, threshold),
        chronological(points.push(p)),
        p.timestamp >= threshold,
    ensures
        covers(kind, after_update(kind, d, p), points.push(p), threshold),
{
    lemma_retained(kind, d, p.value as int);
    lemma_update_keeps_order(kind, d, p);
    let kept = retained(kind, d, p.value as int) as int;
    let t = after_update(kind, d, p);
    let fed = points.push(p);
    let newest = fed.len() - 1;
    assert(fed[newest] == p);
    assert(t[kept] == p);
    assert forall|k: int| 0 <= k < t.len() implies #[trigger] admitted(fed, threshold, t[k]) by {
        if k < kept {
            assert(t[k] == d[k]);
            assert(admitted(points, threshold, d[k]));
            let w = choose|w: int| 0 <= w < points.len() && points[w] == d[k];
            assert(fed[w] == d[k]);
        }
    }
    assert forall|i: int, j: int| 0 <= i < j < t.len() implies (#[trigger] t[i]).timestamp <= (
    #[trigger] t[j]).timestamp by {
        assert(t[i] == d[i]);
        if j < kept {
            assert(t[j] == d[j]);
        } else {
            assert(admitted(points, threshold, d[i]));
            let w = choose|w: int| 0 <= w < points.len() && points[w] == d[i];
            assert(fed[w] == d[i]);
            assert(fed[w].timestamp <= fed[newest].timestamp);
        }
    }
    assert forall|i: int|
        0 <= i < fed.len() && fed[i].timestamp >= threshold implies #[trigger] answered(
        kind,
        t,
        fed[i],
    ) by {
        if i == newest {
            assert(answers(kind, t[kept], fed[i]));
        } else {
            assert(fed[i] == points[i]);
            assert(answered(kind, d, points[i]));
            let k0 = choose|k: int| 0 <= k < d.len() && #[trigger] answers(kind, d[k], points[i]);
            if k0 < kept {
                assert(t[k0] == d[k0]);
                assert(answers(kind, t[k0], fed[i]));
            } else {
                assert(kind.beats(p.value as int, d[k0].value as int));
                assert(fed[i].timestamp <= fed[newest].timestamp);
                assert(answers(kind, t[kept], fed[i]));
            }
        }
    }
}

proof fn lemma_replay_covers(kind: ExtremumKind, points: Seq<ExtremumPoint>, window: int)
    requires
        points.len() > 0,
        window >= 0,
        chronological(points),
    ensures
        covers(kind, replay(kind, points, window), points, points.last().timestamp - window),
    decreases points.len(),
{
    let p = points.last();
    let before = points.drop_last();
    let threshold = p.timestamp - window;
    assert(before.push(p) == points);
    if before.len() == 0 {
        assert(replay(kind, before, window) == Seq::<ExtremumPoint>::empty());
        assert(covers(kind, Seq::<ExtremumPoint>::empty(), before, threshold));
        lemma_evict_covers(kind, Seq::<ExtremumPoint>::empty(), before, threshold, threshold);
    } else {
        assert forall|i: int, j: int| 0 <= i < j < before.len() implies (
        #[trigger] before[i]).timestamp <= (#[trigger] before[j]).timestamp by {
            assert(before[i] == points[i] && before[j] == points[j]);
        }
        lemma_replay_covers(kind, before, window);
        assert(before.last() == points[points.len() - 2]);
        assert(points[points.len() - 2].timestamp <= points[points.len() - 1].timestamp);
        lemma_evict_covers(
            kind,
            replay(kind, before, window),
            before,
            before.last().timestamp - window,
            threshold,
        );
    }
    lemma_update_covers(
        kind,
        after_evict(replay(kind, before, window), threshold),
        before,
        threshold,
        p,
    );
}

/// After every update the front of the deque holds what a scan of the whole
/// trailing window finds, provided the points arrive in time order.
pub proof fn lemma_current_is_window_extremum(
    kind: ExtremumKind,
    points: Seq<ExtremumPoint>,
    window: int,
)
    requires
        points.len() > 0,
        window >= 0,
        chronological(points),
    ensures
        replay(kind, points, window).len() > 0,
        is_window_extremum(kind, points, window, replay(kind, points, window)[0].value as int),
{
    lemma_replay_covers(kind, points, window);
    let d = replay(kind, points, window);
    let threshold = points.last().timestamp - window;
    let newest = points.len() - 1;
    assert(answered(kind, d, points[newest]));
    let front = d[0];
    assert(admitted(points, threshold, front));
    let at = choose|w: int| 0 <= w < points.len() && points[w] == front;
    assert(in_window(points, window, at) && points[at].value == front.value);
    assert forall|i: int| #[trigger] in_window(points, window, i) implies !kind.beats(
        points[i].value as int,
        front.value as int,
    ) by {
        assert(answered(kind, d, points[i]));
        let k0 = choose|k: int| 0 <= k < d.len() && #[trigger] answers(kind, d[k], points[i]);
        if k0 > 0 {
            assert(kind.rank(d[0].value as int) >= kind.rank(d[k0].value as int));
        }
    }
}

/// The deque of a tracker that started empty and was fed `points` one by
/// one, each after an eviction at the threshold of the same index.
pub open spec fn replay_with(
    kind: ExtremumKind,
    points: Seq<ExtremumPoint>,
    thresholds: Seq<int>,
) -> Seq<ExtremumPoint>
    decreases points.len(),
{
    if points.len() == 0 {
        Seq::empty()
    } else {
        after_update(
            kind,
            after_evict(
                replay_with(kind, points.drop_last(), thresholds.drop_last()),
                thresholds.last(),
            ),
            points.last(),
        )
    }
}

/// The thresholds never fall from one to the next.
pub open spec fn rising(thresholds: Seq<int>) -> bool {
    forall|i: int, j: int|
        0 <= i < j < thresholds.len() ==> #[trigger] thresholds[i] <= #[trigger] thresholds[j]
}

/// A feed in order: one threshold for each point, neither the times of the
/// points nor the thresholds ever fall, and no point is older than the
/// threshold that it arrives with.
pub open spec fn feed_in_order(points: Seq<ExtremumPoint>, thresholds: Seq<int>) -> bool {
    &&& thresholds.len() == points.len()
    &&& chronological(points)
    &&& rising(thresholds)
    &&& forall|i: int| 0 <= i < points.len() ==> (#[trigger] points[i]).timestamp >= thresholds[i]
}

/// `points[i]` is not older than `threshold`.
pub open spec fn since(points: Seq<ExtremumPoint>, threshold: int, i: int) -> bool {
    0 <= i < points.len() && points[i].timestamp >= threshold
}

/// `value` is what a scan of all points not older than `threshold` finds:
/// one of them holds it and none of them beats it.
pub open spec fn is_extremum_since(
    kind: ExtremumKind,
    points: Seq<ExtremumPoint>,
    threshold: int,
    value: int,
) -> bool {
    &&& exists|i: int| #[trigger] since(points, threshold, i) && points[i].value == value
    &&& forall|i: int| #[trigger] since(points, threshold, i) ==> !kind.beats(
        points[i].value as int,
        value,
    )
}

proof fn lemma_replay_with_covers(
    kind: ExtremumKind,
    points: Seq<ExtremumPoint>,
    thresholds: Seq<int>,
)
    requires
        points.len() > 0,
        feed_in_order(points, thresholds),
    ensures
        covers(kind, replay_with(kind, points, thresholds), points, thresholds.last()),
    decreases points.len(),
{
    let p = points.last();
    let before = points.drop_last();
    let earlier = thresholds.drop_last();
    let threshold = thresholds.last();
    let newest = points.len() - 1;
    assert(before.push(p) == points);
    assert(points[newest].timestamp >= thresholds[newest]);
    if before.len() == 0 {
        assert(replay_with(kind, before, earlier) == Seq::<ExtremumPoint>::empty());
        assert(covers(kind, Seq::<ExtremumPoint>::empty(), before, threshold));
        lemma_evict_covers(kind, Seq::<ExtremumPoint>::empty(), before, threshold, threshold);
    } else {
        assert forall|i: int, j: int| 0 <= i < j < before.len() implies (
        #[trigger] before[i]).timestamp <= (#[trigger] before[j]).timestamp by {
            assert(before[i] == points[i] && before[j] == points[j]);
        }
        assert forall|i: int, j: int| 0 <= i < j < earlier.len() implies #[trigger] earlier[i]
            <= #[trigger] earlier[j] by {
            assert(earlier[i] == thresholds[i] && earlier[j] == thresholds[j]);
        }
        assert forall|i: int| 0 <= i < before.len() implies (#[trigger] before[i]).timestamp
            >= earlier[i] by {
            assert(before[i] == points[i] && earlier[i] == thresholds[i]);
        }
        lemma_replay_with_covers(kind, before, earlier);
        assert(earlier.last() == thresholds[newest - 1]);
        assert(thresholds[newest - 1] <= thresholds[newest]);
        lemma_evict_covers(
            kind,
            replay_with(kind, before, earlier),
            before,
            earlier.last(),
            threshold,
        );
    }
    lemma_update_covers(
        kind,
        after_evict(replay_with(kind, before, earlier), threshold),
        before,
        threshold,
        p,
    );
}

/// Whatever the thresholds of the evictions, as long as the feed is in
/// order: after every update the front of the deque holds what a scan of
/// all points not older than the latest threshold finds.
pub proof fn lemma_current_is_extremum_since(
    kind: ExtremumKind,
    points: Seq<ExtremumPoint>,
    thresholds: Seq<int>,
)
    requires
        points.len() > 0,
        feed_in_order(points, thresholds),
    ensures
        replay_with(kind, points, thresholds).len() > 0,
        is_extremum_since(
            kind,
            points,
            thresholds.last(),
            replay_with(kind, points, thresholds)[0].value as int,
        ),
{
    lemma_replay_with_covers(kind, points, thresholds);
    let d = replay_with(kind, points, thresholds);
    let threshold = thresholds.last();
    let newest = points.len() - 1;
    assert(points[newest].timestamp >= thresholds[newest]);
    assert(answered(kind, d, points[newest]));
    let front = d[0];
    assert(admitted(points, threshold, front));
    let at = choose|w: int| 0 <= w < points.len() && points[w] == front;
    assert(since(points, threshold, at) && points[at].value == front.value);
    assert forall|i: int| #[trigger] since(points, threshold, i) implies !kind.beats(
        points[i].value as int,
        front.value as int,
    ) by {
        assert(answered(kind, d, points[i]));
        let k0 = choose|k: int| 0 <= k < d.len() && #[trigger] answers(kind, d[k], points[i]);
        if k0 > 0 {
            assert(kind.rank(d[0].value as int) >= kind.rank(d[k0].value as int));
        }
    }
}

} // verus!
