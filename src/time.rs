use vstd::prelude::*;

verus! {

/// A modification time: whole seconds since the Unix epoch and the
/// nanoseconds within that second. Times are ordered by seconds, then by
/// nanoseconds.
#[derive(Clone, Copy, PartialEq, Eq, Structural, Debug)]
pub struct Timestamp {
    pub seconds: i64,
    pub nanos: u32,
}

/// `a` is strictly later than `b`.
pub open spec fn later(a: Timestamp, b: Timestamp) -> bool {
    a.seconds > b.seconds || (a.seconds == b.seconds && a.nanos > b.nanos)
}

/// The later of two times.
pub open spec fn max_time(a: Timestamp, b: Timestamp) -> Timestamp {
    if later(b, a) {
        b
    } else {
        a
    }
}

/// The latest of a sequence of times, or the epoch when there is none.
pub open spec fn latest(times: Seq<Timestamp>) -> Timestamp
    decreases times.len(),
{
    if times.len() == 0 {
        Timestamp::epoch()
    } else if times.len() == 1 {
        times[0]
    } else {
        max_time(latest(times.drop_last()), times.last())
    }
}

impl Timestamp {
    pub open spec fn epoch() -> Timestamp {
        Timestamp { seconds: 0, nanos: 0 }
    }

    /// The Unix epoch, the time given to a directory with nothing in it.
    pub fn zero() -> (r: Timestamp)
        ensures
            r == Timestamp::epoch(),
    {
        Timestamp { seconds: 0, nanos: 0 }
    }

    /// Whether `self` is strictly later than `other`.
    pub fn is_later_than(&self, other: &Timestamp) -> (r: bool)
        ensures
            r == later(*self, *other),
    {
        self.seconds > other.seconds || (self.seconds == other.seconds && self.nanos > other.nanos)
    }
}

/// The latest time is one of the times (or the epoch for none), and no time
/// of the sequence is later.
pub proof fn lemma_latest_is_max(times: Seq<Timestamp>)
    ensures
        forall|i: int| 0 <= i < times.len() ==> !later(#[trigger] times[i], latest(times)),
        times.len() == 0 ==> latest(times) == Timestamp::epoch(),
        times.len() > 0 ==> times.contains(latest(times)),
    decreases times.len(),
{
    if times.len() > 0 {
        let init = times.drop_last();
        lemma_latest_is_max(init);
        assert forall|i: int| 0 <= i < times.len() implies !later(#[trigger] times[i], latest(times)) by {
            if i < times.len() - 1 {
                assert(times[i] == init[i]);
            }
        }
        if init.len() == 0 {
            assert(times[0] == latest(times));
        } else if !later(times.last(), latest(init)) {
            let j = choose|j: int| 0 <= j < init.len() && init[j] == latest(init);
            assert(times[j] == latest(times));
        } else {
            assert(times[times.len() - 1] == latest(times));
        }
    }
}

/// The watermark of a directory: the latest modification time among the
/// entries found under it, or the epoch when it holds nothing.
pub fn latest_modification_time(times: &Vec<Timestamp>) -> (r: Timestamp)
    ensures
        r == latest(times@),
{
    if times.len() == 0 {
        return Timestamp::zero();
    }
    let mut best = times[0];
    let mut i: usize = 1;
    assert(times@.subrange(0, 1).len() == 1);
    while i < times.len()
        invariant
            1 <= i <= times@.len(),
            best == latest(times@.subrange(0, i as int)),
        decreases times@.len() - i,
    {
        let t = times[i];
        assert(times@.subrange(0, i + 1).drop_last() == times@.subrange(0, i as int));
        if t.is_later_than(&best) {
            best = t;
        }
        i = i + 1;
    }
    assert(times@.subrange(0, i as int) == times@);
    best
}

} // verus!
