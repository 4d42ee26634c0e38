use gameboy_core::memory::MemoryRegion;

#[test]
fn reads_and_writes_in_bounds() {
    let mut memory = MemoryRegion::<4>::default();

    assert!(memory.write(2, 0xAB));
    assert_eq!(memory.read(2), Some(0xAB));
}

#[test]
fn rejects_out_of_bounds_access() {
    let mut memory = MemoryRegion::<4>::default();

    assert!(!memory.write(4, 0xAB));
    assert_eq!(memory.read(4), None);
}

#[test]
fn write_leaves_other_bytes_alone() {
    let mut memory = MemoryRegion::<4>::zeroed();

    assert!(memory.write(1, 0x5A));
    assert_eq!(memory.as_slice(), &[0x00, 0x5A, 0x00, 0x00]);
    assert!(memory.write(1, 0x00));
    assert_eq!(memory.read(1), Some(0x00));
}

#[test]
fn region_from_bytes_checks_length() {
    let region = MemoryRegion::<4>::from_bytes(&[1, 2, 3, 4]).expect("four bytes");
    assert_eq!(region.as_slice(), &[1, 2, 3, 4]);
    assert_eq!(region.read(3), Some(4));
    assert!(MemoryRegion::<4>::from_bytes(&[1, 2, 3]).is_none());
    assert!(MemoryRegion::<4>::from_bytes(&[1, 2, 3, 4, 5]).is_none());
}
