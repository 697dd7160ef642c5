//! The storage geometry: segment capacities and the mapping from a logical
//! index to its segment and offset.
//!
//! Storage is split over at most 64 segments. Segment `s` has the fixed
//! capacity `BASE * 2^s`, so the capacities double and the segments fill in
//! address order at the cumulative thresholds 32, 96, 224, 480, and so on.

use vstd::prelude::*;
use vstd::arithmetic::power2::{
    lemma2_to64, lemma2_to64_rest, lemma_pow2_pos, lemma_pow2_strictly_increases,
    lemma_pow2_unfold, pow2,
};

verus! {

/// Capacity of the first segment; each later segment doubles it.
pub const BASE: usize = 32;

/// Number of segments; enough that any `usize` index falls into one of them.
pub const SEGMENTS: usize = 64;

/// Capacity of segment `s`: `BASE * 2^s`.
pub open spec fn seg_capacity(s: nat) -> nat {
    (BASE as nat) * pow2(s)
}

/// Total capacity of all segments before segment `s`: `BASE * (2^s - 1)`.
/// Segment `s` therefore holds the logical positions
/// `cum_capacity(s) .. cum_capacity(s) + seg_capacity(s)`.
pub open spec fn cum_capacity(s: nat) -> nat {
    (BASE as nat) * ((pow2(s) - 1) as nat)
}

/// Every segment has room for at least `BASE` elements.
pub proof fn lemma_seg_capacity_pos(s: nat)
    ensures
        seg_capacity(s) >= 32,
{
    lemma_pow2_pos(s);
}

/// The capacities are the successive differences of the cumulative thresholds.
pub proof fn lemma_cum_capacity_step(s: nat)
    ensures
        cum_capacity(s + 1) == cum_capacity(s) + seg_capacity(s),
{
    lemma_pow2_unfold(s + 1);
    lemma_pow2_pos(s);
}

/// The cumulative thresholds grow with the segment index.
pub proof fn lemma_cum_capacity_mono(s1: nat, s2: nat)
    requires
        s1 <= s2,
    ensures
        cum_capacity(s1) <= cum_capacity(s2),
{
    if s1 < s2 {
        lemma_pow2_strictly_increases(s1, s2);
        lemma_pow2_pos(s1);
    }
}

/// So do the capacities themselves.
pub proof fn lemma_seg_capacity_mono(s1: nat, s2: nat)
    requires
        s1 <= s2,
    ensures
        seg_capacity(s1) <= seg_capacity(s2),
{
    if s1 < s2 {
        lemma_pow2_strictly_increases(s1, s2);
    }
}

/// The 64 segments together cover every index a `usize` can express.
pub proof fn lemma_total_capacity()
    ensures
        usize::MAX < cum_capacity(SEGMENTS as nat),
{
    lemma2_to64();
    lemma2_to64_rest();
}

/// The segment and offset of the index `idx` counted from segment `s` on.
pub open spec fn locate_from(idx: nat, s: nat) -> (nat, nat)
    decreases idx,
    via locate_from_decreases
{
    if idx < seg_capacity(s) {
        (s, idx)
    } else {
        locate_from((idx - seg_capacity(s)) as nat, s + 1)
    }
}

#[via_fn]
proof fn locate_from_decreases(idx: nat, s: nat) {
    lemma_pow2_pos(s);
}

/// The segment and offset of the logical index `idx`.
pub open spec fn spec_locate(idx: nat) -> (nat, nat) {
    locate_from(idx, 0)
}

proof fn lemma_locate_from(idx: nat, s: nat)
    ensures
        locate_from(idx, s).0 >= s,
        locate_from(idx, s).1 < seg_capacity(locate_from(idx, s).0),
        cum_capacity(locate_from(idx, s).0) + locate_from(idx, s).1 == cum_capacity(s) + idx,
    decreases idx,
{
    lemma_pow2_pos(s);
    if idx < seg_capacity(s) {
    } else {
        lemma_locate_from((idx - seg_capacity(s)) as nat, s + 1);
        lemma_cum_capacity_step(s);
    }
}

/// The mapping is exactly "subtract the capacities until the remainder fits":
/// the offset is what remains of `idx` past the segment's cumulative threshold.
pub proof fn lemma_spec_locate(idx: nat)
    ensures
        spec_locate(idx).1 < seg_capacity(spec_locate(idx).0),
        cum_capacity(spec_locate(idx).0) + spec_locate(idx).1 == idx,
{
    lemma_locate_from(idx, 0);
    lemma2_to64();
}

/// Any index a `usize` can express lands in one of the 64 segments.
pub proof fn lemma_locate_segment_bound(idx: nat)
    requires
        idx <= usize::MAX,
    ensures
        spec_locate(idx).0 < 64,
{
    lemma_spec_locate(idx);
    lemma_total_capacity();
    let (g, off) = spec_locate(idx);
    if g >= 64 {
        lemma_cum_capacity_mono(64, g);
        assert(false);
    }
}

/// The mapping is determined by its characterization: an index below a
/// segment's capacity and counted from that segment's cumulative threshold
/// maps exactly there.
pub proof fn lemma_locate_unique(idx: nat, g: nat, off: nat)
    requires
        cum_capacity(g) + off == idx,
        off < seg_capacity(g),
    ensures
        spec_locate(idx) == (g, off),
{
    lemma_spec_locate(idx);
    let (g2, off2) = spec_locate(idx);
    if g2 < g {
        lemma_cum_capacity_step(g2);
        lemma_cum_capacity_mono(g2 + 1, g);
        assert(false);
    }
    if g2 > g {
        lemma_cum_capacity_step(g);
        lemma_cum_capacity_mono(g + 1, g2);
        assert(false);
    }
}

/// Larger indices never map to earlier segments.
pub proof fn lemma_locate_le(i: nat, j: nat)
    requires
        i <= j,
    ensures
        spec_locate(i).0 <= spec_locate(j).0,
{
    lemma_spec_locate(i);
    lemma_spec_locate(j);
    let (gi, offi) = spec_locate(i);
    let (gj, offj) = spec_locate(j);
    if gi > gj {
        lemma_cum_capacity_step(gj);
        lemma_cum_capacity_mono(gj + 1, gi);
        assert(false);
    }
}

/// Walk the segments from the first, subtracting each capacity from `idx`,
/// until the remainder is smaller than the current capacity: that remainder is
/// the offset within the segment reached.
pub fn locate(idx: usize) -> (r: (usize, usize))
    ensures
        (r.0 as nat, r.1 as nat) == spec_locate(idx as nat),
        r.0 < 64,
        r.1 <= idx,
{
    proof {
        lemma2_to64();
        lemma_locate_segment_bound(idx as nat);
    }
    let mut seg: usize = 0;
    let mut cap: usize = BASE;
    let mut off: usize = idx;
    loop
        invariant
            cap as nat == seg_capacity(seg as nat),
            cum_capacity(seg as nat) + off as nat == idx as nat,
            locate_from(off as nat, seg as nat) == spec_locate(idx as nat),
            off <= idx,
        decreases off,
    {
        if off < cap {
            proof {
                lemma_locate_segment_bound(idx as nat);
            }
            return (seg, off);
        }
        proof {
            lemma_seg_capacity_pos(seg as nat);
            lemma_total_capacity();
            if seg as nat >= 64 {
                lemma_cum_capacity_mono(64, seg as nat);
            }
            assert(seg < 64);
            lemma_cum_capacity_step(seg as nat);
            lemma_pow2_unfold(seg as nat + 1);
            lemma_locate_segment_bound(idx as nat);
        }
        off = off - cap;
        seg = seg + 1;
        if cap > usize::MAX - cap {
            // The next capacity exceeds `usize::MAX`, so the remainder
            // certainly fits in this segment.
            proof {
                assert(seg_capacity(seg as nat) == 2 * (cap as nat));
                assert((off as nat) < seg_capacity(seg as nat));
                assert(locate_from(off as nat, seg as nat) == (seg as nat, off as nat));
            }
            return (seg, off);
        }
        cap = cap + cap;
    }
}

/// The capacity of segment `s` as a machine integer, or nothing where it
/// exceeds `usize::MAX` (such a segment could never be allocated in full).
pub fn seg_capacity_checked(s: usize) -> (r: Option<usize>)
    ensures
        match r {
            Some(c) => c as nat == seg_capacity(s as nat),
            None => seg_capacity(s as nat) > usize::MAX,
        },
{
    proof {
        lemma2_to64();
    }
    let mut k: usize = 0;
    let mut cap: usize = BASE;
    while k < s
        invariant
            k <= s,
            cap as nat == seg_capacity(k as nat),
        decreases s - k,
    {
        proof {
            lemma_pow2_unfold(k as nat + 1);
        }
        if cap > usize::MAX - cap {
            proof {
                lemma_seg_capacity_mono(k as nat + 1, s as nat);
            }
            return None;
        }
        cap = cap + cap;
        k = k + 1;
    }
    Some(cap)
}

} // verus!
