use vstd::prelude::*;

verus! {

/// Pairs of row `i`: `(i, j)` for each `j` with `i < j < n`, `j` ascending.
pub open spec fn row(i: nat, n: nat) -> Seq<(usize, usize)> {
    Seq::new(
        if n > i + 1 { (n - i - 1) as nat } else { 0 },
        |k: int| (i as usize, (i + 1 + k) as usize),
    )
}

/// Rows `i`, `i + 1`, ..., `n - 1`, one after the other.
pub open spec fn pairs_from(i: nat, n: nat) -> Seq<(usize, usize)>
    decreases n - i,
{
    if i >= n {
        Seq::empty()
    } else {
        row(i, n) + pairs_from(i + 1, n)
    }
}

/// Every unordered pair of `n` bodies once, as `(i, j)` with `i < j`, in the
/// order of a loop over `i` with an inner loop over `j`.
pub open spec fn all_pairs(n: nat) -> Seq<(usize, usize)> {
    pairs_from(0, n)
}

/// The pairs the force accumulator visits for `n` bodies, in order.
pub fn pair_schedule(n: usize) -> (r: Vec<(usize, usize)>)
    ensures
        r@ == all_pairs(n as nat),
{
    let mut out: Vec<(usize, usize)> = Vec::new();
    let mut i: usize = 0;
    while i < n
        invariant
            i <= n,
            out@ + pairs_from(i as nat, n as nat) == all_pairs(n as nat),
        decreases n - i,
    {
        let ghost start = out@;
        assert(pairs_from(i as nat, n as nat) == row(i as nat, n as nat) + pairs_from(
            (i + 1) as nat,
            n as nat,
        ));
        let mut j: usize = i + 1;
        while j < n
            invariant
                i < n,
                i + 1 <= j <= n,
                out@ == start + row(i as nat, n as nat).take(j - i - 1),
            decreases n - j,
        {
            out.push((i, j));
            j = j + 1;
            assert(out@ =~= start + row(i as nat, n as nat).take(j - i - 1));
        }
        assert(row(i as nat, n as nat).take(j - i - 1) =~= row(i as nat, n as nat));
        assert(start + pairs_from(i as nat, n as nat) =~= out@ + pairs_from((i + 1) as nat, n as nat));
        i = i + 1;
    }
    assert(pairs_from(i as nat, n as nat) =~= Seq::empty());
    assert(out@ =~= out@ + pairs_from(i as nat, n as nat));
    out
}

proof fn lemma_pairs_from_members(i: nat, n: nat)
    requires
        n <= usize::MAX,
    ensures
        forall|p: (usize, usize)|
            pairs_from(i, n).contains(p) <==> (i <= p.0 && p.0 < p.1 && p.1 < n),
        pairs_from(i, n).no_duplicates(),
    decreases n - i,
{
    if i < n {
        lemma_pairs_from_members(i + 1, n);
        let r = row(i, n);
        let rest = pairs_from(i + 1, n);
        assert(pairs_from(i, n) == r + rest);
        assert forall|p: (usize, usize)|
            pairs_from(i, n).contains(p) <==> (i <= p.0 && p.0 < p.1 && p.1 < n) by {
            if i == p.0 && p.0 < p.1 && p.1 < n {
                assert(r[p.1 - i - 1] == p);
                assert((r + rest)[p.1 - i - 1] == p);
            }
            if i < p.0 && p.0 < p.1 && p.1 < n {
                assert(rest.contains(p));
                let k = choose|k: int| 0 <= k < rest.len() && rest[k] == p;
                assert((r + rest)[r.len() + k] == p);
            }
            if (r + rest).contains(p) {
                let k = choose|k: int| 0 <= k < (r + rest).len() && (r + rest)[k] == p;
                if k >= r.len() {
                    assert(rest[k - r.len()] == p);
                    assert(rest.contains(p));
                } else {
                    assert(r[k] == p);
                }
            }
        }
        assert forall|a: int, b: int|
            0 <= a < b < (r + rest).len() implies (r + rest)[a] != (r + rest)[b] by {
            if b >= r.len() && a < r.len() {
                assert(rest.contains(rest[b - r.len()]));
            }
            if a >= r.len() {
                assert(rest[a - r.len()] != rest[b - r.len()]);
            }
        }
    } else {
        assert(pairs_from(i, n) =~= Seq::<(usize, usize)>::empty());
    }
}

/// The schedule holds each unordered pair of bodies exactly once, as `(i, j)`
/// with `i < j`. So the contribution added to body `i` for a pair and the one
/// taken from body `j` come from one and the same computation, and no pair is
/// counted twice.
pub proof fn lemma_each_pair_once(n: nat)
    requires
        n <= usize::MAX,
    ensures
        forall|p: (usize, usize)| all_pairs(n).contains(p) <==> (p.0 < p.1 && p.1 < n),
        all_pairs(n).no_duplicates(),
{
    lemma_pairs_from_members(0, n);
}

/// With no body or a single one there is no pair, so the accumulator adds
/// nothing and every acceleration stays zero.
pub proof fn lemma_no_pairs_below_two(n: nat)
    requires
        n <= 1,
    ensures
        all_pairs(n).len() == 0,
{
    if n == 1 {
        assert(row(0, 1).len() == 0);
        assert(pairs_from(1, 1).len() == 0);
    }
}

} // verus!
