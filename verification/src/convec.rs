//! The core container: segmented storage plus the logical length that decides
//! which positions are valid.
//!
//! Elements live in up to 64 segments of geometrically growing capacity, and
//! the logical length is the single source of truth: position `i` is valid
//! exactly when `i` is below it. The number of elements each segment holds is
//! a pure function of the length, so a drained container retains no storage.

use vstd::prelude::*;
use vstd::arithmetic::mul::lemma_mul_basics;
use vstd::arithmetic::power2::{lemma2_to64, lemma_pow2_unfold};
use vstd::layout::size_of;

use crate::layout::{
    cum_capacity, lemma_cum_capacity_mono, lemma_cum_capacity_step, lemma_locate_le,
    lemma_locate_segment_bound, lemma_locate_unique, lemma_seg_capacity_pos, lemma_spec_locate,
    locate, seg_capacity, seg_capacity_checked, spec_locate, BASE, SEGMENTS,
};

verus! {

/// How many elements segment `s` holds when the container's logical length is
/// `len`: the segments fill in order, each up to its fixed capacity.
pub open spec fn seg_fill(len: nat, s: nat) -> nat {
    if len <= cum_capacity(s) {
        0
    } else if len >= cum_capacity(s) + seg_capacity(s) {
        seg_capacity(s)
    } else {
        (len - cum_capacity(s)) as nat
    }
}

/// Number of allocated segments at logical length `len`: exactly the segments
/// that hold at least one element.
pub open spec fn segments_used(len: nat) -> nat {
    if len == 0 {
        0
    } else {
        spec_locate((len - 1) as nat).0 + 1
    }
}

/// Growing the length by one adds one element to the segment that the new
/// position maps to, at the offset equal to that segment's old fill, and
/// leaves every other segment's fill unchanged.
proof fn lemma_fill_step(len: nat)
    ensures
        seg_fill(len, spec_locate(len).0) == spec_locate(len).1,
        seg_fill(len + 1, spec_locate(len).0) == spec_locate(len).1 + 1,
        forall|s: nat| s != spec_locate(len).0 ==> #[trigger] seg_fill(len + 1, s) == seg_fill(
            len,
            s,
        ),
{
    lemma_spec_locate(len);
    let (g, off) = spec_locate(len);
    assert forall|s: nat| s != g implies #[trigger] seg_fill(len + 1, s) == seg_fill(len, s) by {
        if s < g {
            lemma_cum_capacity_step(s);
            lemma_cum_capacity_mono(s + 1, g);
        } else {
            lemma_cum_capacity_step(g);
            lemma_cum_capacity_mono(g + 1, s);
        }
    }
}

/// The allocated segments — those holding at least one element — are exactly
/// the first `segments_used(len)` of them: the storage a container retains
/// is the sum of the full capacities of precisely those segments.
pub proof fn lemma_segments_allocated(len: nat)
    ensures
        forall|s: nat| (#[trigger] seg_fill(len, s)) > 0 <==> s < segments_used(len),
{
    if len > 0 {
        lemma_spec_locate((len - 1) as nat);
        let g = spec_locate((len - 1) as nat).0;
        assert forall|s: nat| (#[trigger] seg_fill(len, s)) > 0 <==> s < g + 1 by {
            if s <= g {
                lemma_cum_capacity_mono(s, g);
                lemma_seg_capacity_pos(s);
            } else {
                lemma_cum_capacity_step(g);
                lemma_cum_capacity_mono(g + 1, s);
            }
        }
    }
}

/// How retained storage changes between the lengths `len` and `len + 1`:
/// when position `len` starts a segment (offset zero), the push that fills
/// it allocates exactly that one further segment, and the pop that removes
/// it drains the segment and releases its storage; at any other offset the
/// set of allocated segments is unchanged.
pub proof fn lemma_storage_step(len: nat)
    ensures
        spec_locate(len).1 == 0 ==> segments_used(len + 1) == segments_used(len) + 1,
        spec_locate(len).1 != 0 ==> segments_used(len + 1) == segments_used(len),
{
    lemma2_to64();
    lemma_spec_locate(len);
    let (g, off) = spec_locate(len);
    if off == 0 {
        if len > 0 {
            // `len` sits exactly at segment g's threshold, so the previous
            // position closes segment g - 1.
            lemma_cum_capacity_step((g - 1) as nat);
            lemma_seg_capacity_pos((g - 1) as nat);
            lemma_locate_unique(
                (len - 1) as nat,
                (g - 1) as nat,
                (seg_capacity((g - 1) as nat) - 1) as nat,
            );
        }
    } else {
        lemma_locate_unique((len - 1) as nat, g, (off - 1) as nat);
    }
}

/// A valid position's offset lies within its segment's fill.
proof fn lemma_read_in_range(len: nat, idx: nat)
    requires
        idx < len,
    ensures
        spec_locate(idx).1 < seg_fill(len, spec_locate(idx).0),
{
    lemma_spec_locate(idx);
}

/// The segmented growable container.
///
/// Pushes append at the tail, pops remove from it, and every position below
/// the logical length can be read. An element, once written, keeps its
/// logical index until a pop removes it.
#[derive(Debug)]
pub struct ConVec<T> {
    segments: Vec<Vec<T>>,
    len: usize,
}

impl<T> View for ConVec<T> {
    type V = Seq<T>;

    /// The elements in logical order: position `i` lives at the segment and
    /// offset that the storage geometry assigns to it.
    closed spec fn view(&self) -> Seq<T> {
        Seq::new(
            self.len as nat,
            |i: int|
                self.segments@[spec_locate(i as nat).0 as int]@[spec_locate(i as nat).1 as int],
        )
    }
}

impl<T> ConVec<T> {
    /// Well-formedness: the container owns exactly 64 segments, and the
    /// number of elements each holds is determined by the logical length
    /// through the cumulative capacity thresholds.
    pub closed spec fn wf(&self) -> bool {
        &&& self.segments@.len() == 64
        &&& forall|s: int|
            0 <= s < 64 ==> (#[trigger] self.segments@[s])@.len() == seg_fill(
                self.len as nat,
                s as nat,
            )
    }

    /// Bytes the container retains: every allocated segment reserves its full
    /// capacity once, and a drained segment releases it again, so the total
    /// is the cumulative capacity of the segments in use times the element
    /// size — a pure function of the number of elements.
    pub open spec fn spec_heap_size(&self) -> nat {
        cum_capacity(segments_used(self@.len())) * size_of::<T>()
    }

    /// An empty container; no segment is allocated yet.
    pub fn new() -> (r: Self)
        ensures
            r.wf(),
            r@ == Seq::<T>::empty(),
    {
        let mut segments: Vec<Vec<T>> = Vec::new();
        let mut i: usize = 0;
        while i < SEGMENTS
            invariant
                i <= 64,
                segments@.len() == i as nat,
                forall|s: int| 0 <= s < i ==> (#[trigger] segments@[s])@.len() == 0,
            decreases 64 - i,
        {
            segments.push(Vec::new());
            i = i + 1;
        }
        let r = ConVec { segments, len: 0 };
        proof {
            assert(r@ =~= Seq::<T>::empty());
        }
        r
    }

    /// The number of valid positions.
    pub fn len(&self) -> (r: usize)
        ensures
            r == self@.len(),
    {
        self.len
    }

    /// Whether position `idx` is currently valid.
    fn valid_index(&self, idx: usize) -> (r: bool)
        ensures
            r == (idx < self@.len()),
    {
        idx < self.len
    }

    /// Append `value` at the tail and return its index: the index equals the
    /// length before the call, so successive pushes receive the consecutive
    /// indices `0, 1, 2, …` with no duplicates and no gaps.
    pub fn push(&mut self, value: T) -> (idx: usize)
        requires
            old(self).wf(),
            old(self)@.len() < usize::MAX,
        ensures
            final(self).wf(),
            final(self)@ == old(self)@.push(value),
            idx == old(self)@.len(),
    {
        let idx = self.len;
        let ghost oldv = self@;
        proof {
            lemma_spec_locate(idx as nat);
            lemma_locate_segment_bound(idx as nat);
            lemma_fill_step(idx as nat);
        }
        let (g, off) = locate(idx);
        self.len = idx + 1;
        if self.segments[g].len() == 0 {
            // First write into this segment: reserve its full capacity once,
            // where that capacity is expressible at all.
            match seg_capacity_checked(g) {
                Some(c) => {
                    self.segments[g] = Vec::with_capacity(c);
                },
                None => {},
            }
        }
        self.segments[g].push(value);
        proof {
            let g = g as int;
            assert(self.segments@[g]@ =~= old(self).segments@[g]@.push(value));
            assert forall|s: int|
                0 <= s < 64 implies (#[trigger] self.segments@[s])@.len() == seg_fill(
                self.len as nat,
                s as nat,
            ) by {
                if s != g {
                    assert(seg_fill((idx + 1) as nat, s as nat) == seg_fill(idx as nat, s as nat));
                }
            }
            assert forall|i: int| 0 <= i < oldv.len() implies self@[i] == oldv[i] by {
                lemma_spec_locate(i as nat);
                lemma_locate_le(i as nat, idx as nat);
                if spec_locate(i as nat).0 as int == g {
                    lemma_read_in_range(idx as nat, i as nat);
                }
            }
            assert(self@[idx as int] == value);
            assert(self@ =~= oldv.push(value));
        }
        idx
    }

    /// Remove and return the most recently pushed element still present; on
    /// an empty container there is nothing to return and nothing changes.
    /// A segment drained by the removal releases its storage.
    pub fn pop(&mut self) -> (r: Option<T>)
        requires
            old(self).wf(),
        ensures
            final(self).wf(),
            old(self)@.len() == 0 ==> r == None::<T> && *final(self) == *old(self),
            old(self)@.len() > 0 ==> r == Some(old(self)@.last()) && final(self)@ == old(self)@.drop_last(),
    {
        if self.len == 0 {
            return None;
        }
        let ghost oldv = self@;
        let idx = self.len - 1;
        proof {
            lemma_spec_locate(idx as nat);
            lemma_locate_segment_bound(idx as nat);
            lemma_fill_step(idx as nat);
        }
        let (g, off) = locate(idx);
        self.len = idx;
        let r = self.segments[g].pop();
        if self.segments[g].len() == 0 {
            // The segment is drained: return its storage to the unallocated
            // state.
            self.segments[g] = Vec::new();
        }
        proof {
            let g = g as int;
            assert(self.segments@[g]@ =~= old(self).segments@[g]@.drop_last());
            assert forall|s: int|
                0 <= s < 64 implies (#[trigger] self.segments@[s])@.len() == seg_fill(
                self.len as nat,
                s as nat,
            ) by {
                if s != g {
                    assert(seg_fill((idx + 1) as nat, s as nat) == seg_fill(idx as nat, s as nat));
                }
            }
            assert forall|i: int| 0 <= i < idx implies self@[i] == oldv[i] by {
                lemma_spec_locate(i as nat);
                lemma_locate_le(i as nat, idx as nat);
                if spec_locate(i as nat).0 as int == g {
                    lemma_read_in_range(idx as nat, i as nat);
                }
            }
            assert(r == Some(oldv.last()));
            assert(self@ =~= oldv.drop_last());
        }
        r
    }

    /// Read position `idx` without a bounds check; the caller must have
    /// established that the position is valid.
    pub fn get_unchecked(&self, idx: usize) -> (r: &T)
        requires
            self.wf(),
            idx < self@.len(),
        ensures
            *r == self@[idx as int],
    {
        proof {
            lemma_spec_locate(idx as nat);
            lemma_locate_segment_bound(idx as nat);
            lemma_read_in_range(self.len as nat, idx as nat);
        }
        let (g, off) = locate(idx);
        &self.segments[g][off]
    }

    /// Read position `idx`, or nothing when it is not (yet) valid.
    pub fn get(&self, idx: usize) -> (r: Option<&T>)
        requires
            self.wf(),
        ensures
            match r {
                Some(v) => idx < self@.len() && *v == self@[idx as int],
                None => idx >= self@.len(),
            },
    {
        if self.valid_index(idx) {
            Some(self.get_unchecked(idx))
        } else {
            None
        }
    }

    /// Indexed access. Where the original interface faults on an index that
    /// was never validated, the caller here must establish the bound.
    pub fn index(&self, idx: usize) -> (r: &T)
        requires
            self.wf(),
            idx < self@.len(),
        ensures
            *r == self@[idx as int],
    {
        self.get_unchecked(idx)
    }

    /// The bytes retained by allocated segments: each reserves its full
    /// capacity, so the total is the cumulative capacity of the segments in
    /// use times the element size. In particular a fully drained container
    /// reports zero.
    pub fn heap_size(&self) -> (r: usize)
        requires
            self.wf(),
            self.spec_heap_size() <= usize::MAX,
        ensures
            r as nat == self.spec_heap_size(),
            self@.len() == 0 ==> r == 0,
    {
        proof {
            lemma2_to64();
        }
        if self.len == 0 {
            proof {
                assert(segments_used(0) == 0);
                assert(cum_capacity(0) == 0);
                lemma_mul_basics(size_of::<T>() as int);
                assert(self.spec_heap_size() == 0);
            }
            return 0;
        }
        let sz = core::mem::size_of::<T>();
        if sz == 0 {
            proof {
                lemma_mul_basics(cum_capacity(segments_used(self.len as nat)) as int);
                assert(self.spec_heap_size() == 0);
            }
            return 0;
        }
        let (g, _) = locate(self.len - 1);
        let n1 = g + 1;
        proof {
            assert(segments_used(self.len as nat) == g as nat + 1);
            assert(self.spec_heap_size() == cum_capacity(n1 as nat) * (sz as nat));
            assert(cum_capacity(n1 as nat) <= cum_capacity(n1 as nat) * (sz as nat))
                by (nonlinear_arith)
                requires
                    1 <= sz,
            ;
            assert(cum_capacity(n1 as nat) <= usize::MAX);
        }
        let mut k: usize = 0;
        let mut cap: usize = BASE;
        let mut cum: usize = 0;
        while k < n1
            invariant
                k <= n1,
                n1 <= 64,
                k < n1 ==> cap as nat == seg_capacity(k as nat),
                cum as nat == cum_capacity(k as nat),
                cum_capacity(n1 as nat) <= usize::MAX,
            decreases n1 - k,
        {
            proof {
                lemma_cum_capacity_step(k as nat);
                lemma_cum_capacity_mono(k as nat + 1, n1 as nat);
                assert(cum as nat + cap as nat == cum_capacity(k as nat + 1));
            }
            cum = cum + cap;
            k = k + 1;
            if k < n1 {
                proof {
                    lemma_pow2_unfold(k as nat);
                    lemma_cum_capacity_step(k as nat);
                    lemma_cum_capacity_mono(k as nat + 1, n1 as nat);
                    assert(cap as nat + cap as nat == seg_capacity(k as nat));
                    assert(seg_capacity(k as nat) <= cum_capacity(k as nat + 1));
                }
                cap = cap + cap;
            }
        }
        proof {
            assert(cum as nat * sz as nat == self.spec_heap_size());
        }
        cum * sz
    }

    /// A cursor over the container's valid positions, starting at the first.
    pub fn iter<'a>(&'a self) -> (r: ConVecIter<'a, T>)
        ensures
            r.spec_inner() == self,
            r.spec_pos() == 0,
    {
        ConVecIter { inner: self, index: 0 }
    }
}

/// A restartable forward cursor over a container: it yields the element at
/// its current position while that position is valid, then ends.
pub struct ConVecIter<'a, T> {
    inner: &'a ConVec<T>,
    index: usize,
}

impl<'a, T> ConVecIter<'a, T> {
    /// The container the cursor walks.
    pub closed spec fn spec_inner(&self) -> &'a ConVec<T> {
        self.inner
    }

    /// The position the cursor will yield next.
    pub closed spec fn spec_pos(&self) -> nat {
        self.index as nat
    }

    /// Yield the element at the current position and advance, or report the
    /// end of the sequence once the position is no longer valid.
    pub fn next(&mut self) -> (r: Option<&'a T>)
        requires
            old(self).spec_inner().wf(),
        ensures
            final(self).spec_inner() == old(self).spec_inner(),
            match r {
                Some(v) => old(self).spec_pos() < old(self).spec_inner()@.len()
                    && *v == old(self).spec_inner()@[old(self).spec_pos() as int]
                    && final(self).spec_pos() == old(self).spec_pos() + 1,
                None => old(self).spec_pos() >= old(self).spec_inner()@.len()
                    && final(self).spec_pos() == old(self).spec_pos(),
            },
    {
        let r = self.inner.get(self.index);
        if r.is_some() {
            self.index = self.index + 1;
        }
        r
    }
}

} // verus!
