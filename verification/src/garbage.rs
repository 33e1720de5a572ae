//! The writer's queue of retired values, ordered by the version they belonged to.
use std::collections::VecDeque;
use vstd::prelude::*;

verus! {

/// Versions in `s` strictly increase from front to back.
pub open spec fn versions_increasing<T>(s: Seq<(usize, T)>) -> bool {
    forall|i: int, j: int| 0 <= i < j < s.len() ==> s[i].0 < s[j].0
}

/// `after` is what is left of `before` once its front entries older than
/// `bound` are dropped: the dropped prefix holds only versions below `bound`,
/// and the first kept entry (if any) is at or above it.
pub open spec fn reclaimed_below<T>(before: Seq<(usize, T)>, after: Seq<(usize, T)>, bound: int) -> bool {
    exists|k: int|
        0 <= k <= before.len() && after == before.subrange(k, before.len() as int) && (forall|i: int|
            0 <= i < k ==> before[i].0 < bound) && (k < before.len() ==> before[k].0 >= bound)
}

/// Manages retired objects: each is kept with the version it belonged to,
/// oldest first, until no reader can still observe that version.
pub struct GarbageSet<T> {
    queue: VecDeque<(usize, T)>,
}

impl<T> View for GarbageSet<T> {
    type V = Seq<(usize, T)>;

    closed spec fn view(&self) -> Seq<(usize, T)> {
        self.queue@
    }
}

impl<T> GarbageSet<T> {
    /// Create a new empty garbage set.
    pub fn new() -> (g: Self)
        ensures
            g@ == Seq::<(usize, T)>::empty(),
    {
        GarbageSet { queue: VecDeque::new() }
    }

    /// The total number of retired objects.
    pub fn len(&self) -> (n: usize)
        ensures
            n == self@.len(),
    {
        self.queue.len()
    }

    /// The most recently retired object, if any.
    pub fn last(&self) -> (r: Option<&T>)
        ensures
            match r {
                Some(x) => self@.len() > 0 && *x == self@.last().1,
                None => self@.len() == 0,
            },
    {
        let n = self.queue.len();
        if n == 0 {
            None
        } else {
            Some(&self.queue[n - 1].1)
        }
    }

    /// Add a retired node for the version it belonged to.
    pub fn add(&mut self, node: T, current_version: usize)
        ensures
            final(self)@ == old(self)@.push((current_version, node)),
    {
        self.queue.push_back((current_version, node));
    }

    /// Reclaim the retired objects from the front of the queue whose version is
    /// older than `min_active_version`; they are dropped here.
    pub fn collect(&mut self, min_active_version: usize, _current_version: usize)
        ensures
            reclaimed_below(old(self)@, final(self)@, min_active_version as int),
    {
        let ghost start = self@;
        let ghost mut k: int = 0;
        while self.queue.len() > 0 && self.queue[0].0 < min_active_version
            invariant
                0 <= k <= start.len(),
                self@ == start.subrange(k, start.len() as int),
                forall|i: int| 0 <= i < k ==> start[i].0 < min_active_version,
            decreases self@.len(),
        {
            self.queue.pop_front();
            proof { k = k + 1; }
        }
        assert(reclaimed_below(start, self@, min_active_version as int)) by {
            if k < start.len() {
                assert(self@[0] == start[k]);
            }
        }
    }
}

/// Reclaiming is monotone in its bound: reclaiming below a higher bound leaves
/// a suffix of what reclaiming below a lower one leaves, and reclaiming below
/// the lower bound first, then below the higher one, leaves the same as
/// reclaiming below the higher bound alone.
pub proof fn lemma_reclaim_monotone<T>(
    s: Seq<(usize, T)>,
    low: Seq<(usize, T)>,
    high: Seq<(usize, T)>,
    m1: int,
    m2: int,
)
    requires
        m1 <= m2,
        reclaimed_below(s, low, m1),
        reclaimed_below(s, high, m2),
    ensures
        exists|j: int| 0 <= j <= low.len() && high == low.subrange(j, low.len() as int),
        reclaimed_below(low, high, m2),
{
    let k1 = choose|k: int|
        0 <= k <= s.len() && low == s.subrange(k, s.len() as int) && (forall|i: int|
            0 <= i < k ==> s[i].0 < m1) && (k < s.len() ==> s[k].0 >= m1);
    let k2 = choose|k: int|
        0 <= k <= s.len() && high == s.subrange(k, s.len() as int) && (forall|i: int|
            0 <= i < k ==> s[i].0 < m2) && (k < s.len() ==> s[k].0 >= m2);
    assert(k1 <= k2) by {
        if k2 < k1 {
            assert(s[k2].0 < m1);
        }
    }
    let j = k2 - k1;
    assert(high =~= low.subrange(j, low.len() as int));
    assert forall|i: int| 0 <= i < j implies low[i].0 < m2 by {
        assert(low[i] == s[k1 + i]);
    }
    if j < low.len() {
        assert(low[j] == s[k2]);
    }
}

} // verus!
