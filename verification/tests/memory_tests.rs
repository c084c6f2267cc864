use vm::memory::{LinearMemoryIsolate, MAX_MEM_LIMIT, PAGE_SIZE};
use vm::VmError;

#[test]
fn new_memory_is_zeroed() {
    let mem = LinearMemoryIsolate::new(2);
    assert_eq!(mem.current_pages, 2);
    assert_eq!(mem.max_pages, 1024);
    assert_eq!(mem.active_byte_capacity(), 2 * PAGE_SIZE);
    assert!(mem.raw_buffer.iter().all(|b| *b == 0));
}

#[test]
fn new_memory_is_capped() {
    let mem = LinearMemoryIsolate::new(5000);
    assert_eq!(mem.current_pages, 1024);
    assert_eq!(mem.active_byte_capacity(), MAX_MEM_LIMIT);
}

#[test]
fn write_then_read_round_trips() {
    let mut mem = LinearMemoryIsolate::new(1);
    assert_eq!(mem.write_bytes(100, &[1, 2, 3, 4]), Ok(()));
    let mut buf = [0u8; 4];
    assert_eq!(mem.read_bytes(100, &mut buf), Ok(()));
    assert_eq!(buf, [1, 2, 3, 4]);
    let mut wider = [9u8; 6];
    assert_eq!(mem.read_bytes(99, &mut wider), Ok(()));
    assert_eq!(wider, [0, 1, 2, 3, 4, 0]);
}

#[test]
fn write_at_end_of_memory() {
    let mut mem = LinearMemoryIsolate::new(1);
    assert_eq!(mem.write_bytes(PAGE_SIZE - 2, &[7, 8]), Ok(()));
    assert_eq!(mem.raw_buffer[PAGE_SIZE - 1], 8);
    assert_eq!(mem.write_bytes(PAGE_SIZE - 1, &[7, 8]), Err(VmError::MemoryAccessViolation { address: PAGE_SIZE - 1 }));
    assert_eq!(mem.raw_buffer[PAGE_SIZE - 1], 8);
}

#[test]
fn read_out_of_bounds_leaves_destination() {
    let mem = LinearMemoryIsolate::new(1);
    let mut buf = [5u8; 8];
    assert_eq!(mem.read_bytes(PAGE_SIZE - 4, &mut buf), Err(VmError::MemoryAccessViolation { address: PAGE_SIZE - 4 }));
    assert_eq!(buf, [5u8; 8]);
}

#[test]
fn offset_overflow_is_violation() {
    let mut mem = LinearMemoryIsolate::new(1);
    let mut buf = [0u8; 2];
    assert_eq!(mem.read_bytes(usize::MAX, &mut buf), Err(VmError::MemoryAccessViolation { address: usize::MAX }));
    assert_eq!(mem.write_bytes(usize::MAX, &[1]), Err(VmError::MemoryAccessViolation { address: usize::MAX }));
}

#[test]
fn empty_read_and_write_at_end_succeed() {
    let mut mem = LinearMemoryIsolate::new(0);
    assert_eq!(mem.active_byte_capacity(), 0);
    assert_eq!(mem.write_bytes(0, &[]), Ok(()));
    let mut buf: [u8; 0] = [];
    assert_eq!(mem.read_bytes(0, &mut buf), Ok(()));
    assert_eq!(mem.write_bytes(1, &[]), Err(VmError::MemoryAccessViolation { address: 1 }));
}

#[test]
fn grow_keeps_contents_and_zero_fills() {
    let mut mem = LinearMemoryIsolate::new(1);
    mem.write_bytes(10, &[42]).unwrap();
    assert_eq!(mem.dynamically_grow_heap(2), Ok(1));
    assert_eq!(mem.current_pages, 3);
    assert_eq!(mem.active_byte_capacity(), 3 * PAGE_SIZE);
    assert_eq!(mem.raw_buffer[10], 42);
    assert!(mem.raw_buffer[PAGE_SIZE..].iter().all(|b| *b == 0));
}

#[test]
fn grow_past_ceiling_fails() {
    let mut mem = LinearMemoryIsolate::new(1000);
    assert_eq!(mem.dynamically_grow_heap(25), Err(VmError::MemoryAccessViolation { address: 1000 * PAGE_SIZE }));
    assert_eq!(mem.current_pages, 1000);
    assert_eq!(mem.dynamically_grow_heap(24), Ok(1000));
    assert_eq!(mem.current_pages, 1024);
}

#[test]
fn grow_page_count_overflow_fails() {
    let mut mem = LinearMemoryIsolate::new(1);
    assert_eq!(mem.dynamically_grow_heap(usize::MAX), Err(VmError::MemoryAccessViolation { address: usize::MAX }));
    assert_eq!(mem.current_pages, 1);
}

#[test]
fn purge_empties_memory() {
    let mut mem = LinearMemoryIsolate::new(2);
    mem.write_bytes(0, &[1, 2, 3]).unwrap();
    mem.purge_and_zeroize();
    assert_eq!(mem.active_byte_capacity(), 0);
    assert_eq!(mem.current_pages, 0);
    assert_eq!(mem.max_pages, 1024);
    let mut buf = [0u8; 1];
    assert_eq!(mem.read_bytes(0, &mut buf), Err(VmError::MemoryAccessViolation { address: 0 }));
    assert_eq!(mem.dynamically_grow_heap(1), Ok(0));
    assert_eq!(mem.active_byte_capacity(), PAGE_SIZE);
}
