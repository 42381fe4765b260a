use why_compiler::memory::address::Address;
use why_compiler::memory::memory_manager::MemoryManager;
use why_compiler::util::{read_usize, usize_to_bytes, USIZE_BYTES};

#[test]
fn machine_word_round_trip() {
    let bytes = usize_to_bytes(0x0102_0304);
    assert_eq!(bytes.len(), USIZE_BYTES);
    assert_eq!(bytes[0], 4);
    assert_eq!(bytes[1], 3);
    assert_eq!(bytes[2], 2);
    assert_eq!(bytes[3], 1);
    assert_eq!(read_usize(&bytes), 0x0102_0304);
}

#[test]
fn address_bytes_start_with_tag() {
    let bytes = Address::StackDirect(7).get_bytes();
    assert_eq!(bytes[0], 2);
    assert_eq!(bytes.len(), 1 + USIZE_BYTES);
    let (read, consumed) = Address::get_address(&bytes, None);
    assert_eq!(consumed, bytes.len());
    assert!(matches!(read, Address::StackDirect(7)));
}

#[test]
fn memory_manager_appends_and_patches() {
    let mut memory = MemoryManager::new();
    assert_eq!(memory.append(&[1, 2, 3]), 0);
    assert_eq!(memory.reserve(2), 3);
    assert_eq!(memory.position(), 5);
    memory.overwrite(3, &[9, 8]);
    assert_eq!(memory.memory, vec![1, 2, 3, 9, 8]);
}
