//! A byte string whose storage comes from a chosen allocator.

use crate::allocator::{AllocError, Allocator};
use crate::raw_array::{truncated, RawArray};
use std::collections::TryReserveError;
use std::string::String as StdString;
use vstd::prelude::*;

verus! {

/// Relies on `String::with_capacity`: the new string is empty. It panics
/// when `capacity` exceeds `isize::MAX`, so such capacities are left out.
pub assume_specification[ StdString::with_capacity ](capacity: usize) -> (r: StdString)
    requires
        capacity <= crate::layout::MAX_SIZE,
    ensures
        r@ == Seq::<char>::empty(),
;

/// Relies on `String::try_reserve`: the string's contents are unchanged,
/// whether or not the reservation succeeds.
pub assume_specification[ StdString::try_reserve ](
    s: &mut StdString,
    additional: usize,
) -> (r: Result<(), TryReserveError>)
    ensures
        final(s)@ == old(s)@,
;

/// Whether a byte can start a UTF-8 encoded character: it is not a
/// continuation byte `0b10xx_xxxx`.
pub open spec fn starts_char(b: u8) -> bool {
    !(0x80 <= b < 0xC0)
}

/// Whether `index` falls on a character boundary of the bytes `s`.
pub open spec fn char_boundary(s: Seq<u8>, index: int) -> bool {
    if index == 0 {
        true
    } else if index < s.len() {
        starts_char(s[index])
    } else {
        index == s.len()
    }
}

fn is_utf8_char_boundary(x: u8) -> (r: bool)
    ensures
        r == starts_char(x),
{
    x < 0x80 || x >= 0xC0
}

/// UTF-8 text held as bytes in storage from the allocator `A`, which the
/// string owns.
pub struct String<A: Allocator> {
    bytes: RawArray<u8>,
    alloc: A,
}

impl<A: Allocator> View for String<A> {
    type V = Seq<u8>;

    closed spec fn view(&self) -> Seq<u8> {
        self.bytes@
    }
}

impl<A: Allocator> String<A> {
    pub closed spec fn wf(&self) -> bool {
        self.bytes.wf() && self.alloc.inv()
    }

    pub closed spec fn spec_capacity(&self) -> nat {
        self.bytes.spec_capacity()
    }

    /// The allocator the string draws from.
    pub closed spec fn allocator(&self) -> A {
        self.alloc
    }

    /// An empty string from the global allocator.
    pub fn new() -> (r: StdString)
        ensures
            r@ == Seq::<char>::empty(),
    {
        StdString::new()
    }

    /// An empty string from the global allocator, with room for `capacity`
    /// bytes.
    pub fn with_capacity(capacity: usize) -> (r: StdString)
        requires
            capacity <= crate::layout::MAX_SIZE,
        ensures
            r@ == Seq::<char>::empty(),
    {
        StdString::with_capacity(capacity)
    }

    /// An empty string from the global allocator with room for `capacity`
    /// bytes, or the error from reserving them.
    pub fn try_with_capacity(capacity: usize) -> (r: Result<StdString, TryReserveError>)
        ensures
            r matches Ok(s) ==> s@ == Seq::<char>::empty(),
    {
        let mut s = StdString::new();
        match s.try_reserve(capacity) {
            Ok(()) => Ok(s),
            Err(e) => Err(e),
        }
    }

    /// An empty string drawing from `alloc`; nothing is allocated.
    pub fn new_in(alloc: A) -> (r: String<A>)
        requires
            alloc.inv(),
        ensures
            r.wf(),
            r@ == Seq::<u8>::empty(),
            r.spec_capacity() == 0,
            r.allocator() == alloc,
    {
        String { bytes: RawArray::new(), alloc }
    }

    /// An empty string drawing from `alloc` with room for `capacity` bytes.
    /// When `alloc` refuses, the string starts with no capacity and
    /// allocates on first use.
    pub fn with_capacity_in(capacity: usize, alloc: A) -> (r: String<A>)
        requires
            alloc.inv(),
        ensures
            r.wf(),
            r@ == Seq::<u8>::empty(),
            r.spec_capacity() == capacity || r.spec_capacity() == 0,
    {
        let mut alloc = alloc;
        match RawArray::with_capacity(capacity, &mut alloc) {
            Ok(bytes) => String { bytes, alloc },
            Err(_) => String { bytes: RawArray::new(), alloc },
        }
    }

    /// An empty string drawing from `alloc` with room for `capacity` bytes,
    /// or `AllocError` when `alloc` refuses or the size cannot be described.
    pub fn try_with_capacity_in(capacity: usize, alloc: A) -> (r: Result<String<A>, AllocError>)
        requires
            alloc.inv(),
        ensures
            capacity > crate::layout::MAX_SIZE ==> r is Err,
            r matches Ok(s) ==> s.wf() && s@ == Seq::<u8>::empty() && s.spec_capacity()
                == capacity,
    {
        let mut alloc = alloc;
        proof {
            crate::raw_array::lemma_byte_array_layout(capacity as int);
        }
        match RawArray::with_capacity(capacity, &mut alloc) {
            Ok(bytes) => Ok(String { bytes, alloc }),
            Err(e) => Err(e),
        }
    }

    /// The bytes of the string.
    pub fn as_bytes(&self) -> (r: &[u8])
        ensures
            r@ == self@,
    {
        self.bytes.as_slice()
    }

    /// Length in bytes.
    pub fn len(&self) -> (r: usize)
        ensures
            r == self@.len(),
    {
        self.bytes.len()
    }

    /// Shortens the string to `new_len` bytes when it is longer; `new_len`
    /// must fall on a character boundary.
    pub fn truncate(&mut self, new_len: usize)
        requires
            old(self).wf(),
            new_len <= old(self)@.len() ==> char_boundary(old(self)@, new_len as int),
        ensures
            final(self).wf(),
            final(self)@ == truncated(old(self)@, new_len as int),
            final(self).spec_capacity() == old(self).spec_capacity(),
    {
        if new_len <= self.len() {
            self.bytes.truncate(new_len);
        }
    }

    /// Whether byte position `index` is a UTF-8 character boundary: the start,
    /// the end, or a position whose byte is not a continuation byte.
    pub fn is_char_boundary(&self, index: usize) -> (r: bool)
        ensures
            r == char_boundary(self@, index as int),
    {
        if index == 0 {
            return true;
        }
        if index < self.len() {
            return is_utf8_char_boundary(self.as_bytes()[index]);
        }
        index == self.len()
    }
}

} // verus!
