use oxidation_core::memory::{Memory, MemoryError, MemoryRegion};
use oxidation_core::security_context::{AccessFlags, SecurityContext};

#[test]
fn new_memory_layout() {
    let mem = Memory::new(1000, 10);
    assert_eq!(mem.len(), 1040);
    let regions = mem.memory_regions();
    assert_eq!(regions.len(), 2);
    assert_eq!((regions[0].start, regions[0].end, regions[0].seq_id), (0, 1040, 0));
    assert_eq!(regions[0].name, "Root");
    assert_eq!(regions[0].access, AccessFlags::read_write());
    assert_eq!((regions[1].start, regions[1].end, regions[1].seq_id), (1000, 1040, 1));
    assert_eq!(regions[1].name, "Stack");
    assert_eq!(regions[1].access, AccessFlags::read().union(AccessFlags::private_write()));
    assert_eq!(mem.stack_start(), 1000);
    assert_eq!(mem.stack_end(), 1040);
}

#[test]
fn stack_is_public_read_private_write() {
    let mut mem = Memory::new(1000, 10);
    assert_eq!(mem.write(1000, 7, SecurityContext::User), Err(MemoryError::MemoryAccessViolation));
    assert_eq!(mem.read(1000, SecurityContext::User), Ok(0));
    assert_eq!(mem.write(1039, 7, SecurityContext::System), Ok(()));
    assert_eq!(mem.read(1039, SecurityContext::User), Ok(7));
}

#[test]
fn main_memory_is_read_write() {
    let mut mem = Memory::new(1000, 10);
    assert_eq!(mem.write(999, 200, SecurityContext::User), Ok(()));
    assert_eq!(mem.read(999, SecurityContext::User), Ok(200));
    assert_eq!(mem.read(0, SecurityContext::User), Ok(0));
}

#[test]
fn outside_every_region_is_out_of_bounds() {
    let mut mem = Memory::new(1000, 10);
    assert_eq!(mem.read(1040, SecurityContext::System), Err(MemoryError::OutOfBounds));
    assert_eq!(mem.write(5000, 1, SecurityContext::System), Err(MemoryError::OutOfBounds));
}

#[test]
fn latest_region_wins() {
    let mut mem = Memory::new(100, 0);
    assert_eq!(mem.add_memory_region(10, 20, AccessFlags::read(), "ro".to_string()), Ok(2));
    assert_eq!(mem.write(15, 1, SecurityContext::User), Err(MemoryError::MemoryAccessViolation));
    assert_eq!(mem.write(20, 1, SecurityContext::User), Ok(()));
    assert_eq!(mem.add_memory_region(12, 14, AccessFlags::write(), "wo".to_string()), Ok(3));
    assert_eq!(mem.write(12, 9, SecurityContext::User), Ok(()));
    assert_eq!(mem.read(12, SecurityContext::User), Err(MemoryError::MemoryAccessViolation));
    assert_eq!(mem.read(14, SecurityContext::User), Ok(0));
}

#[test]
fn bad_region_bounds_are_refused() {
    let mut mem = Memory::new(100, 1);
    assert_eq!(mem.add_memory_region(10, 10, AccessFlags::read(), "empty".to_string()), Err(MemoryError::OutOfBounds));
    assert_eq!(mem.add_memory_region(20, 10, AccessFlags::read(), "reversed".to_string()), Err(MemoryError::OutOfBounds));
    assert_eq!(mem.add_memory_region(0, 105, AccessFlags::read(), "too long".to_string()), Err(MemoryError::OutOfBounds));
    assert_eq!(mem.memory_regions().len(), 2);
    assert_eq!(mem.add_memory_region(0, 104, AccessFlags::read(), "all".to_string()), Ok(2));
}

#[test]
fn load_image_copies_bytes() {
    let mut mem = Memory::new(10, 0);
    assert_eq!(mem.load_image(3, &vec![1, 2, 3]), Ok(()));
    assert_eq!(mem.read(2, SecurityContext::User), Ok(0));
    assert_eq!(mem.read(3, SecurityContext::User), Ok(1));
    assert_eq!(mem.read(5, SecurityContext::User), Ok(3));
    assert_eq!(mem.load_image(8, &vec![1, 2, 3]), Err(MemoryError::OutOfBounds));
}

#[test]
fn region_constructor_keeps_fields() {
    let r = MemoryRegion::new(4, 8, AccessFlags::read(), 9, "x".to_string());
    assert_eq!((r.start, r.end, r.seq_id), (4, 8, 9));
    assert!(r.contains(4) && r.contains(7) && !r.contains(8));
}
