//! A growable array that keeps a borrowed allocator.

use crate::allocator::{AllocError, Allocator, Block};
use crate::raw_array::{
    appended, array_layout_ok, array_layout_spec, holds_elements, inserted, pushed, reserved, swap_removed, truncated, RawArray,
};
use vstd::prelude::*;

verus! {

/// A contiguous, growable sequence of `T` together with the allocator it
/// draws its memory from. Every [`RawArray`] operation is offered without an
/// allocator argument.
pub struct Array<'a, A: Allocator, T> {
    raw: RawArray<T>,
    alloc: &'a mut A,
}

impl<'a, A: Allocator, T> View for Array<'a, A, T> {
    type V = Seq<T>;

    closed spec fn view(&self) -> Seq<T> {
        self.raw@
    }
}

impl<'a, A: Allocator, T> Array<'a, A, T> {
    /// The array without its allocator.
    pub closed spec fn raw(&self) -> RawArray<T> {
        self.raw
    }

    /// The allocator's state.
    pub closed spec fn allocator(&self) -> A {
        *self.alloc
    }

    pub open spec fn wf(&self) -> bool {
        &&& self.raw().wf()
        &&& self.allocator().inv()
        &&& self@ == self.raw()@
    }

    pub open spec fn spec_capacity(&self) -> nat {
        self.raw().spec_capacity()
    }

    /// Builds an array from its parts: `data` holds room for `capacity`
    /// elements obtained from `alloc`, and `items` are its first elements.
    pub fn from_raw_parts(data: Block, capacity: usize, items: Vec<T>, alloc: &'a mut A) -> (r:
        Array<'a, A, T>)
        requires
            items@.len() <= capacity,
            array_layout_ok::<T>(capacity as int),
            capacity > 0 ==> holds_elements::<T>(data, capacity as int),
            old(alloc).inv(),
        ensures
            r.wf(),
            r@ == items@,
            r.spec_capacity() == capacity,
            r.raw().spec_block() == data,
            r.allocator() == *old(alloc),
    {
        Array { raw: RawArray::from_raw_parts(data, capacity, items), alloc }
    }

    /// An empty array with no capacity; nothing is allocated.
    pub fn new(alloc: &'a mut A) -> (r: Array<'a, A, T>)
        requires
            old(alloc).inv(),
        ensures
            r.wf(),
            r@ == Seq::<T>::empty(),
            r.spec_capacity() == 0,
            r.allocator() == *old(alloc),
    {
        Array { raw: RawArray::new(), alloc }
    }

    /// An empty array with room for `capacity` elements.
    pub fn with_capacity(capacity: usize, alloc: &'a mut A) -> (r: Result<
        Array<'a, A, T>,
        AllocError,
    >)
        requires
            old(alloc).inv(),
        ensures
            !array_layout_ok::<T>(capacity as int) ==> r is Err,
            r matches Ok(a) ==> a.wf() && a@ == Seq::<T>::empty() && a.spec_capacity() == capacity,
            r matches Ok(a) ==> (*old(alloc)).allocates(
                a.allocator(),
                array_layout_spec::<T>(capacity as int),
                Ok(a.raw().spec_block()),
            ),
    {
        match RawArray::with_capacity(capacity, alloc) {
            Ok(raw) => Ok(Array { raw, alloc }),
            Err(e) => Err(e),
        }
    }

    /// Number of elements.
    pub fn len(&self) -> (r: usize)
        requires
            self.wf(),
        ensures
            r == self@.len(),
    {
        self.raw.len()
    }

    /// Number of elements the array holds without allocating.
    pub fn capacity(&self) -> (r: usize)
        ensures
            r == self.spec_capacity(),
    {
        self.raw.capacity()
    }

    /// The elements, in order.
    pub fn as_slice(&self) -> (r: &[T])
        requires
            self.wf(),
        ensures
            r@ == self@,
    {
        self.raw.as_slice()
    }

    /// The elements, in order, for changing in place.
    pub fn as_mut_slice(&mut self) -> (r: &mut [T])
        requires
            old(self).wf(),
        ensures
            r@ == old(self)@,
            final(self)@ == final(r)@,
            final(self).spec_capacity() == old(self).spec_capacity(),
            final(self).allocator() == old(self).allocator(),
    {
        self.raw.as_mut_slice()
    }

    /// Makes room for `additional` more elements, as [`RawArray::reserve`].
    pub fn reserve(&mut self, additional: usize) -> (r: Result<(), AllocError>)
        requires
            old(self).wf(),
        ensures
            final(self).wf(),
            reserved(
                old(self).raw(),
                final(self).raw(),
                old(self).allocator(),
                final(self).allocator(),
                additional as int,
                r,
            ),
    {
        self.raw.reserve(additional, &mut *self.alloc)
    }

    /// Appends `value`, as [`RawArray::push`].
    pub fn push(&mut self, value: T) -> (r: Result<(), AllocError>)
        requires
            old(self).wf(),
        ensures
            final(self).wf(),
            pushed(
                old(self).raw(),
                final(self).raw(),
                old(self).allocator(),
                final(self).allocator(),
                value,
                r,
            ),
    {
        self.raw.push(value, &mut *self.alloc)
    }

    /// Removes and returns the last element, or `None` when empty.
    pub fn pop(&mut self) -> (r: Option<T>)
        requires
            old(self).wf(),
        ensures
            final(self).wf(),
            final(self).allocator() == old(self).allocator(),
            final(self).spec_capacity() == old(self).spec_capacity(),
            old(self)@.len() == 0 ==> r is None && final(self)@ == old(self)@,
            old(self)@.len() > 0 ==> r == Some(old(self)@.last()) && final(self)@ == old(self)@.drop_last(),
    {
        self.raw.pop()
    }

    /// Drops every element; the capacity is kept.
    pub fn clear(&mut self)
        requires
            old(self).wf(),
        ensures
            final(self).wf(),
            final(self)@ == Seq::<T>::empty(),
            final(self).allocator() == old(self).allocator(),
            final(self).spec_capacity() == old(self).spec_capacity(),
    {
        self.raw.clear()
    }

    /// Moves every element of `other` to the end of `self`, as
    /// [`RawArray::append`].
    pub fn append<'b, B: Allocator>(&mut self, other: &mut Array<'b, B, T>) -> (r: Result<
        (),
        AllocError,
    >)
        requires
            old(self).wf(),
            old(other).wf(),
        ensures
            final(self).wf(),
            final(other).wf(),
            final(other).allocator() == old(other).allocator(),
            appended(
                old(self).raw(),
                final(self).raw(),
                old(other).raw(),
                final(other).raw(),
                old(self).allocator(),
                final(self).allocator(),
                r,
            ),
    {
        self.raw.append(&mut other.raw, &mut *self.alloc)
    }

    /// Appends `value` only if there is room; never allocates. Without room
    /// the value is handed back.
    pub fn push_within_capacity(&mut self, value: T) -> (r: Result<(), T>)
        requires
            old(self).wf(),
        ensures
            final(self).wf(),
            final(self).allocator() == old(self).allocator(),
            final(self).spec_capacity() == old(self).spec_capacity(),
            old(self).raw().has_room(1) ==> r is Ok && final(self)@ == old(self)@.push(value),
            !old(self).raw().has_room(1) ==> r == Err::<(), T>(value) && final(self)@ == old(self)@,
    {
        self.raw.push_within_capacity(value)
    }

    /// Inserts `value` at `index` when `index <= len()`, answering
    /// `Ok(Some(()))`; answers `Ok(None)` and changes nothing when `index` is
    /// past the end.
    pub fn insert(&mut self, index: usize, value: T) -> (r: Result<Option<()>, AllocError>)
        requires
            old(self).wf(),
        ensures
            final(self).wf(),
            index > old(self)@.len() ==> r == Ok::<Option<()>, AllocError>(None) && final(self).raw() == old(self).raw() && final(self).allocator() == old(self).allocator(),
            index <= old(self)@.len() ==> r != Ok::<Option<()>, AllocError>(None) && inserted(
                old(self).raw(),
                final(self).raw(),
                old(self).allocator(),
                final(self).allocator(),
                index as int,
                value,
                match r {
                    Ok(_) => Ok(()),
                    Err(e) => Err(e),
                },
            ),
    {
        self.raw.insert(index, value, &mut *self.alloc)
    }

    /// Inserts `value` at `index`, shifting the later elements right.
    pub fn insert_unchecked(&mut self, index: usize, value: T) -> (r: Result<(), AllocError>)
        requires
            old(self).wf(),
            index <= old(self)@.len(),
        ensures
            final(self).wf(),
            inserted(
                old(self).raw(),
                final(self).raw(),
                old(self).allocator(),
                final(self).allocator(),
                index as int,
                value,
                r,
            ),
    {
        self.raw.insert_unchecked(index, value, &mut *self.alloc)
    }

    /// Removes and returns the element at `index`, shifting the later
    /// elements left; `None` when `index` is out of bounds.
    pub fn remove(&mut self, index: usize) -> (r: Option<T>)
        requires
            old(self).wf(),
        ensures
            final(self).wf(),
            final(self).allocator() == old(self).allocator(),
            final(self).spec_capacity() == old(self).spec_capacity(),
            index >= old(self)@.len() ==> r is None && final(self)@ == old(self)@,
            index < old(self)@.len() ==> r == Some(old(self)@[index as int]) && final(self)@ == old(self)@.remove(index as int),
    {
        self.raw.remove(index)
    }

    /// Removes and returns the element at `index`, shifting the later
    /// elements left.
    pub fn remove_unchecked(&mut self, index: usize) -> (r: T)
        requires
            old(self).wf(),
            index < old(self)@.len(),
        ensures
            final(self).wf(),
            final(self).allocator() == old(self).allocator(),
            final(self).spec_capacity() == old(self).spec_capacity(),
            r == old(self)@[index as int],
            final(self)@ == old(self)@.remove(index as int),
    {
        self.raw.remove_unchecked(index)
    }

    /// Removes and returns the element at `index`, moving the last element
    /// into its place; `None` when `index` is out of bounds.
    pub fn swap_remove(&mut self, index: usize) -> (r: Option<T>)
        requires
            old(self).wf(),
        ensures
            final(self).wf(),
            final(self).allocator() == old(self).allocator(),
            final(self).spec_capacity() == old(self).spec_capacity(),
            index >= old(self)@.len() ==> r is None && final(self)@ == old(self)@,
            index < old(self)@.len() ==> r == Some(old(self)@[index as int]) && final(self)@
                == swap_removed(old(self)@, index as int),
    {
        self.raw.swap_remove(index)
    }

    /// Removes and returns the element at `index`, moving the last element
    /// into its place.
    pub fn swap_remove_unchecked(&mut self, index: usize) -> (r: T)
        requires
            old(self).wf(),
            index < old(self)@.len(),
        ensures
            final(self).wf(),
            final(self).allocator() == old(self).allocator(),
            final(self).spec_capacity() == old(self).spec_capacity(),
            r == old(self)@[index as int],
            final(self)@ == swap_removed(old(self)@, index as int),
    {
        self.raw.swap_remove_unchecked(index)
    }

    /// Drops the elements from position `len` on, if there are any.
    pub fn truncate(&mut self, len: usize)
        requires
            old(self).wf(),
        ensures
            final(self).wf(),
            final(self).allocator() == old(self).allocator(),
            final(self).spec_capacity() == old(self).spec_capacity(),
            final(self)@ == truncated(old(self)@, len as int),
    {
        self.raw.truncate(len)
    }
}

} // verus!
