use cindervm::jit::memory::{ExecutableMemory, MemoryError, MAX_REGION_SIZE};

#[test]
fn a_region_of_no_bytes_is_refused() {
    assert_eq!(ExecutableMemory::allocate(0).unwrap_err(), MemoryError::InvalidSize);
}

#[test]
fn a_region_has_the_size_asked_for() {
    let region = ExecutableMemory::allocate(64).unwrap();
    assert_eq!(region.size(), 64);
    assert_eq!(region.as_slice(), &[0u8; 64][..]);
}

#[test]
fn a_region_beyond_the_limit_is_refused() {
    assert_eq!(
        ExecutableMemory::allocate(MAX_REGION_SIZE + 1).unwrap_err(),
        MemoryError::AllocationFailed
    );
    assert_eq!(ExecutableMemory::allocate(usize::MAX).unwrap_err(), MemoryError::AllocationFailed);
}

#[test]
fn a_write_past_the_end_changes_nothing() {
    let mut region = ExecutableMemory::allocate(64).unwrap();
    assert_eq!(region.write(60, &[9, 8, 7, 6]), Ok(()));
    assert_eq!(region.write(60, &[1, 2, 3, 4, 5]), Err(MemoryError::OutOfBounds));
    assert_eq!(&region.as_slice()[60..64], &[9, 8, 7, 6]);
    assert_eq!(region.size(), 64);
}

#[test]
fn a_write_touches_only_its_span() {
    let mut region = ExecutableMemory::allocate(8).unwrap();
    assert_eq!(region.write(0, &[1, 1, 1, 1, 1, 1, 1, 1]), Ok(()));
    assert_eq!(region.write(2, &[7, 8, 9]), Ok(()));
    assert_eq!(region.as_slice(), &[1, 1, 7, 8, 9, 1, 1, 1]);
}

#[test]
fn a_write_may_end_at_the_end() {
    let mut region = ExecutableMemory::allocate(4).unwrap();
    assert_eq!(region.write(1, &[5, 6, 7]), Ok(()));
    assert_eq!(region.as_slice(), &[0, 5, 6, 7]);
    assert_eq!(region.write(4, &[]), Ok(()));
    assert_eq!(region.write(5, &[]), Err(MemoryError::OutOfBounds));
    assert_eq!(region.write(usize::MAX, &[1, 2]), Err(MemoryError::OutOfBounds));
    assert_eq!(region.as_slice(), &[0, 5, 6, 7]);
}

#[test]
fn finalized_code_holds_what_was_written() {
    let mut region = ExecutableMemory::allocate(4).unwrap();
    assert_eq!(region.write(1, &[0xC3, 0x90]), Ok(()));
    let code = region.finalize();
    assert_eq!(code.size(), 4);
    assert_eq!(code.as_slice(), &[0x00, 0xC3, 0x90, 0x00]);
}
