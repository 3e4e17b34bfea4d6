//! Layout facts about type-erased values.

use vstd::layout::{spec_align_of_val, spec_size_of_val};
use vstd::prelude::*;

verus! {

/// The size and alignment entries that head the vtable of a `dyn Trait`
/// value: the size and alignment of the value behind it.
#[derive(Debug, Clone, Copy, PartialEq, Eq, Structural)]
pub struct TraitObjectVTableHeader {
    pub size: usize,
    pub align: usize,
}

impl TraitObjectVTableHeader {
    /// The header describing `v`; for a `dyn Trait` reference, the entries
    /// read from its vtable.
    pub fn of_val<V: ?Sized>(v: &V) -> (r: TraitObjectVTableHeader)
        ensures
            r.size == spec_size_of_val::<V>(v),
            r.align == spec_align_of_val::<V>(v),
    {
        TraitObjectVTableHeader { size: core::mem::size_of_val(v), align: core::mem::align_of_val(v) }
    }
}

} // verus!
