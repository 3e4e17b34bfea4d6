use core::mem;
use stdx::unstable::TraitObjectVTableHeader;

#[test]
fn trait_obj_works() {
    let x = 0u128;
    let vtableheader = TraitObjectVTableHeader::of_val(&x as &dyn Send);
    assert_eq!(vtableheader.align, mem::align_of::<u128>());
    assert_eq!(vtableheader.size, mem::size_of::<u128>());
}

#[test]
fn vtable_header_of_slice() {
    let x = [0u32; 5];
    let header = TraitObjectVTableHeader::of_val(&x[..3]);
    assert_eq!(header.size, 12);
    assert_eq!(header.align, 4);
}
