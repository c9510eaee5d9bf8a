use vstd::prelude::*;

use crate::cadence::SkipCounter;

verus! {

/// Fixed-length history of one body's positions, kept as a ring over a
/// fixed arena: `head` is the slot of the newest entry.
pub struct Trail<T> {
    slots: Vec<T>,
    head: usize,
}

/// `s` after `x` is put in front and the oldest entry dropped.
pub open spec fn pushed<T>(s: Seq<T>, x: T) -> Seq<T> {
    seq![x] + s.drop_last()
}

/// `s` after each of `xs` is pushed in turn, first to last.
pub open spec fn pushed_all<T>(s: Seq<T>, xs: Seq<T>) -> Seq<T>
    decreases xs.len(),
{
    if xs.len() == 0 {
        s
    } else {
        pushed(pushed_all(s, xs.drop_last()), xs.last())
    }
}

/// A trail keeps its length whatever is pushed into it; its entries, newest
/// first, are the pushed values from the last one back, then what it held
/// before, so the oldest entries leave first.
pub proof fn lemma_trail_keeps_newest<T>(s: Seq<T>, xs: Seq<T>)
    requires
        s.len() > 0,
    ensures
        pushed_all(s, xs).len() == s.len(),
        forall|k: int|
            0 <= k < s.len() ==> #[trigger] pushed_all(s, xs)[k] == if k < xs.len() {
                xs[xs.len() - 1 - k]
            } else {
                s[k - xs.len()]
            },
    decreases xs.len(),
{
    if xs.len() > 0 {
        let ys = xs.drop_last();
        lemma_trail_keeps_newest(s, ys);
        let prev = pushed_all(s, ys);
        assert forall|k: int| 0 <= k < s.len() implies #[trigger] pushed_all(s, xs)[k] == if k
            < xs.len() {
            xs[xs.len() - 1 - k]
        } else {
            s[k - xs.len()]
        } by {
            if k > 0 {
                assert(pushed_all(s, xs)[k] == prev[k - 1]);
            }
        }
    }
}

/// Arena slot that holds the entry `k` places behind the newest one.
pub open spec fn ring_slot(head: int, k: int, len: int) -> int {
    if head + k < len { head + k } else { head + k - len }
}

impl<T: Copy> Trail<T> {
    pub closed spec fn wf(&self) -> bool {
        &&& self.slots@.len() > 0
        &&& self.head < self.slots@.len()
    }

    /// Entries from newest to oldest.
    pub closed spec fn view(&self) -> Seq<T> {
        Seq::new(
            self.slots@.len(),
            |k: int| self.slots@[ring_slot(self.head as int, k, self.slots@.len() as int)],
        )
    }

    /// A trail of `length` entries, all equal to `start`.
    pub fn filled(start: T, length: usize) -> (r: Trail<T>)
        requires
            length > 0,
        ensures
            r.wf(),
            r@ == Seq::new(length as nat, |k: int| start),
    {
        let mut slots: Vec<T> = Vec::new();
        let mut i: usize = 0;
        while i < length
            invariant
                i <= length,
                slots@ == Seq::new(i as nat, |k: int| start),
            decreases length - i,
        {
            slots.push(start);
            i = i + 1;
            assert(slots@ =~= Seq::new(i as nat, |k: int| start));
        }
        let r = Trail { slots, head: 0 };
        assert(r@ =~= Seq::new(length as nat, |k: int| start));
        r
    }

    /// Number of entries; fixed for the trail's life.
    pub fn len(&self) -> (r: usize)
        requires
            self.wf(),
        ensures
            r == self@.len(),
            r > 0,
    {
        self.slots.len()
    }

    /// Entry `k` places behind the newest one.
    pub fn get(&self, k: usize) -> (r: T)
        requires
            self.wf(),
            k < self@.len(),
        ensures
            r == self@[k as int],
    {
        let len = self.slots.len();
        let idx = if k < len - self.head { self.head + k } else { k - (len - self.head) };
        self.slots[idx]
    }

    /// Puts `x` in front and drops the oldest entry.
    pub fn push_front(&mut self, x: T)
        requires
            old(self).wf(),
        ensures
            final(self).wf(),
            final(self)@ == pushed(old(self)@, x),
    {
        let len = self.slots.len();
        let h = if self.head == 0 { len - 1 } else { self.head - 1 };
        self.slots.set(h, x);
        self.head = h;
        assert(self@ =~= pushed(old(self)@, x));
    }

    /// Copy of the entries from newest to oldest.
    pub fn snapshot(&self) -> (r: Vec<T>)
        requires
            self.wf(),
        ensures
            r@ == self@,
    {
        let len = self.slots.len();
        let mut out: Vec<T> = Vec::new();
        let mut k: usize = 0;
        while k < len
            invariant
                self.wf(),
                len == self@.len(),
                k <= len,
                out@ == self@.subrange(0, k as int),
            decreases len - k,
        {
            let x = self.get(k);
            out.push(x);
            k = k + 1;
            assert(out@ =~= self@.subrange(0, k as int));
        }
        assert(out@ =~= self@);
        out
    }
}

/// A configuration that a trail buffer refuses.
#[derive(Debug, Clone, Copy, PartialEq, Eq, Structural)]
pub enum TrailError {
    /// A trail must hold at least one entry.
    ZeroLength,
    /// The positions handed in do not match the number of bodies.
    BodyCountMismatch,
}

/// One trail per body, all of one length, refreshed together once every
/// `skip + 1` frames.
pub struct TrailBuffer<T> {
    trails: Vec<Trail<T>>,
    length: usize,
    cadence: SkipCounter,
}

impl<T: Copy> TrailBuffer<T> {
    pub closed spec fn wf(&self) -> bool {
        &&& self.length > 0
        &&& self.cadence.wf()
        &&& forall|i: int|
            0 <= i < self.trails@.len() ==> {
                &&& (#[trigger] self.trails@[i]).wf()
                &&& self.trails@[i]@.len() == self.length
            }
    }

    /// Each body's trail, newest entry first.
    pub closed spec fn view(&self) -> Seq<Seq<T>> {
        Seq::new(self.trails@.len(), |i: int| self.trails@[i]@)
    }

    pub closed spec fn spec_length(&self) -> nat {
        self.length as nat
    }

    /// The skip counter that decides on which frames the trails take an entry.
    pub closed spec fn counter(&self) -> SkipCounter {
        self.cadence
    }

    /// One trail per entry of `initial`, each filled with that body's
    /// starting position so that it draws as a single point.
    pub fn new(initial: &Vec<T>, length: usize, skip: usize) -> (r: Result<TrailBuffer<T>, TrailError>)
        ensures
            r is Err <==> length == 0,
            r is Err ==> r == Err::<TrailBuffer<T>, TrailError>(TrailError::ZeroLength),
            r matches Ok(b) ==> {
                &&& b.wf()
                &&& b.spec_length() == length
                &&& b.counter() == (SkipCounter { skip, since_last: 0 })
                &&& b@ == Seq::new(initial@.len(), |i: int| Seq::new(length as nat, |k: int| initial@[i]))
            },
    {
        if length == 0 {
            return Err(TrailError::ZeroLength);
        }
        let mut trails: Vec<Trail<T>> = Vec::new();
        let mut i: usize = 0;
        while i < initial.len()
            invariant
                length > 0,
                i <= initial@.len(),
                trails@.len() == i,
                forall|j: int|
                    0 <= j < i ==> {
                        &&& (#[trigger] trails@[j]).wf()
                        &&& trails@[j]@ == Seq::new(length as nat, |k: int| initial@[j])
                    },
            decreases initial@.len() - i,
        {
            let t = Trail::filled(initial[i], length);
            trails.push(t);
            i = i + 1;
        }
        let b = TrailBuffer { trails, length, cadence: SkipCounter::new(skip) };
        assert(b@ =~= Seq::new(initial@.len(), |i: int| Seq::new(length as nat, |k: int| initial@[i])));
        Ok(b)
    }

    pub fn body_count(&self) -> (r: usize)
        ensures
            r == self@.len(),
    {
        self.trails.len()
    }

    pub fn length(&self) -> (r: usize)
        ensures
            r == self.spec_length(),
    {
        self.length
    }

    pub fn skip(&self) -> (r: usize)
        ensures
            r == self.counter().skip,
    {
        self.cadence.skip
    }

    /// Advances one frame. On a frame that fires, `positions[i]` goes in
    /// front of body `i`'s trail and its oldest entry leaves; on any other
    /// frame the trails stay as they were. Returns whether this frame fired.
    pub fn record(&mut self, positions: &Vec<T>) -> (r: Result<bool, TrailError>)
        requires
            old(self).wf(),
        ensures
            final(self).wf(),
            final(self).spec_length() == old(self).spec_length(),
            positions@.len() != old(self)@.len() ==> {
                &&& r == Err::<bool, TrailError>(TrailError::BodyCountMismatch)
                &&& final(self)@ == old(self)@
                &&& final(self).counter() == old(self).counter()
            },
            positions@.len() == old(self)@.len() ==> {
                let c = old(self).counter();
                let nc = (SkipCounter {
                    skip: c.skip,
                    since_last: SkipCounter::next_since(c.skip, c.since_last),
                });
                let fired = nc.since_last == 0;
                &&& r == Ok::<bool, TrailError>(fired)
                &&& final(self).counter() == nc
                &&& fired ==> final(self)@ == Seq::new(
                    old(self)@.len(),
                    |i: int| pushed(old(self)@[i], positions@[i]),
                )
                &&& !fired ==> final(self)@ == old(self)@
            },
    {
        if positions.len() != self.trails.len() {
            return Err(TrailError::BodyCountMismatch);
        }
        let fired = self.cadence.tick();
        if fired {
            let n = self.trails.len();
            let mut i: usize = 0;
            while i < n
                invariant
                    self.length == old(self).length,
                    self.length > 0,
                    self.cadence.wf(),
                    self.cadence.skip == old(self).cadence.skip,
                    self.cadence.since_last == SkipCounter::next_since(
                        old(self).cadence.skip,
                        old(self).cadence.since_last,
                    ),
                    n == self.trails@.len(),
                    n == old(self).trails@.len(),
                    n == positions@.len(),
                    i <= n,
                    forall|j: int|
                        0 <= j < n ==> {
                            &&& (#[trigger] self.trails@[j]).wf()
                            &&& self.trails@[j]@.len() == self.length
                        },
                    forall|j: int|
                        0 <= j < i ==> (#[trigger] self.trails@[j])@ == pushed(
                            old(self).trails@[j]@,
                            positions@[j],
                        ),
                    forall|j: int|
                        i <= j < n ==> (#[trigger] self.trails@[j])@ == old(self).trails@[j]@,
                decreases n - i,
            {
                self.trails[i].push_front(positions[i]);
                i = i + 1;
            }
            assert(self@ =~= Seq::new(old(self)@.len(), |i: int| pushed(old(self)@[i], positions@[i])));
        } else {
            assert(self@ =~= old(self)@);
        }
        Ok(fired)
    }

    /// Body `body`'s trail, newest entry first; `None` for a body that does
    /// not exist.
    pub fn snapshot(&self, body: usize) -> (r: Option<Vec<T>>)
        requires
            self.wf(),
        ensures
            r is None <==> body >= self@.len(),
            r matches Some(v) ==> v@ == self@[body as int],
    {
        if body >= self.trails.len() {
            return None;
        }
        Some(self.trails[body].snapshot())
    }

    /// Entry `k` places behind the newest of body `body`'s trail; `None`
    /// where there is no such body or entry.
    pub fn entry(&self, body: usize, k: usize) -> (r: Option<T>)
        requires
            self.wf(),
        ensures
            r is None <==> (body >= self@.len() || k >= self.spec_length()),
            r matches Some(x) ==> x == self@[body as int][k as int],
    {
        if body >= self.trails.len() || k >= self.length {
            return None;
        }
        Some(self.trails[body].get(k))
    }
}

} // verus!
