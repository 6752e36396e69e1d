//! Counting over consecutive counter values: how often a condition on
//! `counter % w` holds among `m` consecutive counters. Round robin and
//! weighted round robin both pick by such a residue, which gives their
//! exact distributions over whole periods.

use vstd::prelude::*;

verus! {

/// Among the counters `c, c + 1, ..., c + m - 1`, how many have a residue
/// modulo `w` that satisfies `p`.
pub open spec fn hits(c: nat, m: nat, w: nat, p: spec_fn(nat) -> bool) -> nat
    decreases m,
{
    if m == 0 {
        0
    } else {
        hits(c, (m - 1) as nat, w, p) + if p(((c + m - 1) as nat) % w) {
            1nat
        } else {
            0nat
        }
    }
}

/// The condition `lo <= r < hi` on a residue `r`.
pub open spec fn in_range(lo: nat, hi: nat) -> spec_fn(nat) -> bool {
    |r: nat| lo <= r < hi
}

/// Counting over `m1 + m2` counters is counting over the first `m1` and
/// then over the next `m2`.
pub proof fn lemma_hits_split(c: nat, m1: nat, m2: nat, w: nat, p: spec_fn(nat) -> bool)
    ensures
        hits(c, m1 + m2, w, p) == hits(c, m1, w, p) + hits(c + m1, m2, w, p),
    decreases m2,
{
    if m2 > 0 {
        lemma_hits_split(c, m1, (m2 - 1) as nat, w, p);
        assert((c + m1 + m2 - 1) as nat == ((c + m1) + m2 - 1) as nat);
    }
}

/// A whole period counts the same from any start.
pub proof fn lemma_hits_period_start(c: nat, w: nat, p: spec_fn(nat) -> bool)
    requires
        w > 0,
    ensures
        hits(c, w, w, p) == hits(0, w, w, p),
    decreases c,
{
    if c > 0 {
        reveal_with_fuel(hits, 2);
        let b = (c - 1) as nat;
        lemma_hits_period_start(b, w, p);
        lemma_hits_split(b, 1, w, w, p);
        lemma_hits_split(b, w, 1, w, p);
        assert((b + w) % w == b % w) by {
            vstd::arithmetic::div_mod::lemma_mod_add_multiples_vanish(b as int, w as int);
        }
        assert(hits(b, 1, w, p) == if p(b % w) { 1nat } else { 0nat });
        assert(hits(b + w, 1, w, p) == if p((b + w) % w) { 1nat } else { 0nat });
    }
}

/// Counting from zero over `m <= w` counters, with a condition that is a
/// range `lo <= r < hi`, counts the part of the range below `m`.
pub proof fn lemma_hits_range_from_zero(m: nat, w: nat, lo: nat, hi: nat)
    requires
        m <= w,
        lo <= hi,
    ensures
        hits(0, m, w, in_range(lo, hi)) == (if m < hi { m } else { hi }) - (if m < lo {
            m
        } else {
            lo
        }),
    decreases m,
{
    if m > 0 {
        lemma_hits_range_from_zero((m - 1) as nat, w, lo, hi);
        vstd::arithmetic::div_mod::lemma_small_mod((m - 1) as nat, w);
    }
}

/// Two conditions that agree on every residue below `w` count the same.
pub proof fn lemma_hits_agree(c: nat, m: nat, w: nat, p: spec_fn(nat) -> bool, q: spec_fn(nat) -> bool)
    requires
        w > 0,
        forall|r: nat| r < w ==> #[trigger] p(r) == q(r),
    ensures
        hits(c, m, w, p) == hits(c, m, w, q),
    decreases m,
{
    if m > 0 {
        lemma_hits_agree(c, (m - 1) as nat, w, p, q);
        vstd::arithmetic::div_mod::lemma_mod_bound(((c + m - 1) as nat) as int, w as int);
    }
}

/// Over `k` whole periods, a range condition `lo <= r < hi` with
/// `hi <= w` holds exactly `k * (hi - lo)` times, from any start.
pub proof fn lemma_hits_range_periods(c: nat, k: nat, w: nat, lo: nat, hi: nat)
    requires
        w > 0,
        lo <= hi <= w,
    ensures
        hits(c, w * k, w, in_range(lo, hi)) == k * (hi - lo),
    decreases k,
{
    let p = in_range(lo, hi);
    if k > 0 {
        let k1 = (k - 1) as nat;
        lemma_hits_range_periods(c, k1, w, lo, hi);
        assert(w * k == w * k1 + w) by (nonlinear_arith)
            requires
                k1 == k - 1,
        ;
        lemma_hits_split(c, w * k1, w, w, p);
        lemma_hits_period_start(c + w * k1, w, p);
        lemma_hits_range_from_zero(w, w, lo, hi);
        assert(k * (hi - lo) == k1 * (hi - lo) + (hi - lo)) by (nonlinear_arith)
            requires
                k1 == k - 1,
        ;
    } else {
        assert(w * k == 0 && k * (hi - lo) == 0) by (nonlinear_arith)
            requires
                k == 0,
        ;
    }
}

} // verus!
