//! Two views on a growable container with segmented storage: an append-only
//! vector whose indices stay valid for the container's whole lifetime, and a
//! last-in-first-out stack.

use vstd::prelude::*;

pub mod convec;
pub mod laws;
pub mod layout;

use convec::{segments_used, ConVec, ConVecIter};
use layout::cum_capacity;
use vstd::layout::size_of;

verus! {

/// Append-only vector: a push assigns the next free index, and an element,
/// once written, keeps that index forever — no operation removes elements.
#[derive(Debug)]
pub struct AoVec<T>(ConVec<T>);

/// Stack over the same storage: push and pop at the tail, last in first out.
#[derive(Debug)]
pub struct ConStack<T>(ConVec<T>);

impl<T> View for AoVec<T> {
    type V = Seq<T>;

    closed spec fn view(&self) -> Seq<T> {
        self.0@
    }
}

impl<T> AoVec<T> {
    /// The wrapped container is well formed.
    pub closed spec fn wf(&self) -> bool {
        self.0.wf()
    }

    /// Creates a new, empty `AoVec`.
    pub fn new() -> (r: Self)
        ensures
            r.wf(),
            r@ == Seq::<T>::empty(),
    {
        AoVec(ConVec::new())
    }

    /// Returns the number of elements pushed so far.
    pub fn len(&self) -> (r: usize)
        ensures
            r == self@.len(),
    {
        self.0.len()
    }

    /// Push an element and return its index: the number of elements before
    /// it, so successive pushes receive the consecutive indices `0, 1, 2, …`
    /// with no duplicates and no gaps.
    pub fn push(&mut self, t: T) -> (idx: usize)
        requires
            old(self).wf(),
            old(self)@.len() < usize::MAX,
        ensures
            final(self).wf(),
            final(self)@ == old(self)@.push(t),
            idx == old(self)@.len(),
    {
        self.0.push(t)
    }

    /// Get the element at index `i`, or nothing while `i` is not yet in use.
    pub fn get(&self, i: usize) -> (r: Option<&T>)
        requires
            self.wf(),
        ensures
            match r {
                Some(v) => i < self@.len() && *v == self@[i as int],
                None => i >= self@.len(),
            },
    {
        self.0.get(i)
    }

    /// Get the element at index `i` without a bounds check; the caller must
    /// have established that the index is in use.
    pub fn get_unchecked(&self, i: usize) -> (r: &T)
        requires
            self.wf(),
            i < self@.len(),
        ensures
            *r == self@[i as int],
    {
        self.0.get_unchecked(i)
    }

    /// Indexed access; the caller must establish the bound.
    pub fn index(&self, i: usize) -> (r: &T)
        requires
            self.wf(),
            i < self@.len(),
        ensures
            *r == self@[i as int],
    {
        self.0.index(i)
    }

    /// A cursor over the elements from index 0 upward.
    pub fn iter<'a>(&'a self) -> (r: ConVecIter<'a, T>)
        requires
            self.wf(),
        ensures
            r.spec_pos() == 0,
            r.spec_inner()@ == self@,
            r.spec_inner().wf(),
    {
        self.0.iter()
    }
}

impl<T> Default for AoVec<T> {
    /// An empty `AoVec`.
    fn default() -> (r: AoVec<T>)
        ensures
            r.wf(),
            r@ == Seq::<T>::empty(),
    {
        AoVec::new()
    }
}

impl<T> View for ConStack<T> {
    type V = Seq<T>;

    closed spec fn view(&self) -> Seq<T> {
        self.0@
    }
}

impl<T> ConStack<T> {
    /// The wrapped container is well formed.
    pub closed spec fn wf(&self) -> bool {
        self.0.wf()
    }

    /// Bytes the stack retains for its elements: every allocated segment
    /// reserves its full capacity, so the total is a pure function of the
    /// number of elements.
    pub open spec fn spec_heap_size(&self) -> nat {
        cum_capacity(segments_used(self@.len())) * size_of::<T>()
    }

    /// Creates a new, empty `ConStack`.
    pub fn new() -> (r: Self)
        ensures
            r.wf(),
            r@ == Seq::<T>::empty(),
    {
        ConStack(ConVec::new())
    }

    /// Returns the length of the `ConStack`.
    pub fn len(&self) -> (r: usize)
        ensures
            r == self@.len(),
    {
        self.0.len()
    }

    /// Push an element onto the `ConStack`.
    pub fn push(&mut self, t: T)
        requires
            old(self).wf(),
            old(self)@.len() < usize::MAX,
        ensures
            final(self).wf(),
            final(self)@ == old(self)@.push(t),
    {
        self.0.push(t);
    }

    /// Pop the most recently pushed element still present (if any): the
    /// stack removes elements strictly last in, first out.
    pub fn pop(&mut self) -> (r: Option<T>)
        requires
            old(self).wf(),
        ensures
            final(self).wf(),
            old(self)@.len() == 0 ==> r == None::<T> && *final(self) == *old(self),
            old(self)@.len() > 0 ==> r == Some(old(self)@.last()) && final(self)@ == old(self)@.drop_last(),
    {
        self.0.pop()
    }

    /// Bytes the stack retains: zero once every element has been popped,
    /// since a drained segment releases its storage.
    pub fn heap_size(&self) -> (r: usize)
        requires
            self.wf(),
            self.spec_heap_size() <= usize::MAX,
        ensures
            r as nat == self.spec_heap_size(),
            self@.len() == 0 ==> r == 0,
    {
        self.0.heap_size()
    }

    /// A cursor over the elements from the bottom of the stack upward.
    pub fn iter<'a>(&'a self) -> (r: ConVecIter<'a, T>)
        requires
            self.wf(),
        ensures
            r.spec_pos() == 0,
            r.spec_inner()@ == self@,
            r.spec_inner().wf(),
    {
        self.0.iter()
    }
}

impl<T> Default for ConStack<T> {
    /// An empty `ConStack`.
    fn default() -> (r: ConStack<T>)
        ensures
            r.wf(),
            r@ == Seq::<T>::empty(),
    {
        ConStack::new()
    }
}

} // verus!
