use vstd::prelude::*;

verus! {

/// Frame counter that fires on one frame in every `skip + 1`.
pub struct SkipCounter {
    pub skip: usize,
    pub since_last: usize,
}

impl SkipCounter {
    pub open spec fn wf(&self) -> bool {
        self.since_last <= self.skip
    }

    /// Counter state after one more frame. A counter past its skip (only
    /// one built field by field can be) starts over.
    pub open spec fn next_since(skip: usize, since: usize) -> usize {
        if since >= skip { 0 } else { (since + 1) as usize }
    }

    pub fn new(skip: usize) -> (r: SkipCounter)
        ensures
            r.wf(),
            r.skip == skip,
            r.since_last == 0,
    {
        SkipCounter { skip, since_last: 0 }
    }

    /// Advances by one frame; returns whether this frame fires.
    pub fn tick(&mut self) -> (fired: bool)
        ensures
            final(self).wf(),
            final(self).skip == old(self).skip,
            final(self).since_last == Self::next_since(old(self).skip, old(self).since_last),
            fired == (final(self).since_last == 0),
    {
        if self.since_last >= self.skip {
            self.since_last = 0;
        } else {
            self.since_last = self.since_last + 1;
        }
        self.since_last == 0
    }
}

/// Counter state after `k` more frames.
pub open spec fn since_after(skip: usize, since: usize, k: nat) -> usize
    decreases k,
{
    if k == 0 {
        since
    } else {
        since_after(skip, SkipCounter::next_since(skip, since), (k - 1) as nat)
    }
}

/// Number of frames that fire among the next `k` frames.
pub open spec fn fires_within(skip: usize, since: usize, k: nat) -> nat
    decreases k,
{
    if k == 0 {
        0
    } else {
        let nxt = SkipCounter::next_since(skip, since);
        (if nxt == 0 { 1nat } else { 0nat }) + fires_within(skip, nxt, (k - 1) as nat)
    }
}

proof fn lemma_no_fire_before_wrap(skip: usize, since: usize, k: nat)
    requires
        since <= skip,
        since + k <= skip,
    ensures
        fires_within(skip, since, k) == 0,
        since_after(skip, since, k) == since + k,
    decreases k,
{
    if k > 0 {
        lemma_no_fire_before_wrap(skip, (since + 1) as usize, (k - 1) as nat);
    }
}

proof fn lemma_fires_split(skip: usize, since: usize, a: nat, b: nat)
    ensures
        fires_within(skip, since, a + b) == fires_within(skip, since, a) + fires_within(
            skip,
            since_after(skip, since, a),
            b,
        ),
    decreases a,
{
    if a > 0 {
        let nxt = SkipCounter::next_since(skip, since);
        lemma_fires_split(skip, nxt, (a - 1) as nat, b);
        assert((a + b - 1) as nat == (a - 1) as nat + b);
    }
}

/// Of any `skip + 1` consecutive frames, exactly one fires, whatever the
/// counter's state before them.
pub proof fn lemma_one_fire_per_period(c: SkipCounter)
    requires
        c.wf(),
        c.skip < usize::MAX,
    ensures
        fires_within(c.skip, c.since_last, (c.skip + 1) as nat) == 1,
{
    let skip = c.skip;
    let s = c.since_last;
    let a = (skip - s) as nat;
    lemma_no_fire_before_wrap(skip, s, a);
    lemma_fires_split(skip, s, a, (s + 1) as nat);
    assert(since_after(skip, s, a) == skip);
    // the frame after reaching `skip` fires and restarts at zero
    assert(fires_within(skip, skip, 1) == 1 + fires_within(skip, 0, 0));
    lemma_fires_split(skip, skip, 1, s as nat);
    assert(since_after(skip, skip, 1) == since_after(skip, 0, 0));
    lemma_no_fire_before_wrap(skip, 0, s as nat);
    assert(a + (s + 1) as nat == (skip + 1) as nat);
    assert((1 + s) as nat == (s + 1) as nat);
}

} // verus!
