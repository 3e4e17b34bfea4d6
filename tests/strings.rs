use stdx::allocator::fixed_buffer::FixedBufferAllocator;
use stdx::allocator::AllocError;
use stdx::string::String;
use stdx::url::ParseError;

#[test]
fn empty_strings_from_std() {
    assert_eq!(String::<FixedBufferAllocator>::new(), "");
    assert_eq!(String::<FixedBufferAllocator>::with_capacity(10), "");
    assert_eq!(String::<FixedBufferAllocator>::try_with_capacity(10).unwrap(), "");
}

#[test]
fn strings_in_an_allocator() {
    let s = String::new_in(FixedBufferAllocator::new(vec![0u8; 16]));
    assert_eq!(s.len(), 0);
    assert_eq!(s.as_bytes(), &[] as &[u8]);
    let t = String::try_with_capacity_in(8, FixedBufferAllocator::new(vec![0u8; 16])).unwrap();
    assert_eq!(t.len(), 0);
    let u = String::try_with_capacity_in(32, FixedBufferAllocator::new(vec![0u8; 16]));
    assert!(matches!(u, Err(AllocError)));
    let w = String::with_capacity_in(32, FixedBufferAllocator::new(vec![0u8; 16]));
    assert_eq!(w.len(), 0);
}

#[test]
fn char_boundaries() {
    let s = String::new_in(FixedBufferAllocator::new(vec![0u8; 16]));
    assert!(s.is_char_boundary(0));
    assert!(!s.is_char_boundary(1));
}

#[test]
fn parse_error_messages() {
    assert_eq!(ParseError::EmptyHost.message(), "empty host");
    assert_eq!(ParseError::InvalidPort.message(), "invalid port number");
    assert_eq!(ParseError::AllocError(AllocError).message(), "memory allocation failed");
}
