use either::Either;
use why_compiler::memory::address::Address;
use why_compiler::memory::memory_manager::{compiled_file_name, dump_file_name};
use why_compiler::memory::runtime_memory::heap_memory::HeapMemory;
use why_compiler::memory::runtime_memory::program_cursor::ProgramCursor;
use why_compiler::memory::runtime_memory::stack_memory::StackMemory;
use why_compiler::memory::runtime_memory::RuntimeMemory;
use why_compiler::memory::MemoryManager;
use why_compiler::util::{join_file_name, int_to_decimal, usize_to_decimal, USIZE_BYTES};
use why_compiler::util::ref_or_box::RefOrBox;

#[test]
fn addresses_round_trip() {
    let addresses = [
        Address::StackDirect(0),
        Address::StackIndirect(1),
        Address::HeapDirect(usize::MAX),
        Address::HeapIndirect(256),
        Address::ProgramDirect(65536),
        Address::ProgramIndirect(7),
    ];
    let codes = [2u8, 3, 5, 6, 8, 9];
    for (address, code) in addresses.iter().zip(codes) {
        let mut bytes = address.get_bytes();
        assert_eq!(bytes[0], code);
        assert_eq!(address.written_length(), bytes.len());
        bytes.extend([0xEE, 0xEE]);
        let (read, consumed) = Address::get_address(&bytes, None);
        assert_eq!(&read, address);
        assert_eq!(consumed, 1 + USIZE_BYTES);
        assert_eq!(&address.duplicate(), address);
    }
    let immediate = Address::Immediate(vec![1, 2, 3]);
    let bytes = immediate.get_bytes();
    assert_eq!(bytes, vec![0, 1, 2, 3]);
    assert_eq!(Address::get_address(&bytes, Some(3)), (Address::Immediate(vec![1, 2, 3]), 4));
    assert_eq!(Address::get_address(&bytes, Some(1)), (Address::Immediate(vec![1]), 2));
    assert_eq!(immediate.duplicate(), immediate);
}

#[test]
fn the_cursor_reads_a_program_in_order() {
    let mut memory = MemoryManager::new();
    memory.append_byte(9);
    memory.append(&Address::StackDirect(5).get_bytes());
    memory.append(&300usize.to_le_bytes());
    memory.append(&[1, 2, 3, 4]);
    let mut cursor = ProgramCursor::from_memory(memory);
    assert_eq!(cursor.get_byte(), 9);
    assert_eq!(cursor.get_address(None), Address::StackDirect(5));
    assert_eq!(cursor.get_usize(), 300);
    assert_eq!(cursor.get_slice(3), vec![1, 2, 3]);
    assert_eq!(cursor.position, 1 + (1 + USIZE_BYTES) + USIZE_BYTES + 3);
    assert_eq!(cursor.get_location(cursor.position), &[4]);
    assert_eq!(cursor.get_location(cursor.program.len()), &[] as &[u8]);
}

#[test]
fn locations_past_a_frame_lie_in_the_next() {
    let mut stack = StackMemory::new();
    stack.add_stack(2);
    stack.stack_up();
    stack.add_stack(3);
    assert_eq!(stack.current_stack, Some(0));
    stack.write_location(1, &[7]);
    stack.write_location(2, &[8, 9]);
    assert_eq!(stack.get_location(0), &[0, 7]);
    assert_eq!(stack.get_location(2), &[8, 9, 0]);
    assert_eq!(stack.get_location(4), &[0]);
    stack.stack_up();
    assert_eq!(stack.current_stack, Some(1));
    assert_eq!(stack.get_location(0), &[8, 9, 0]);
    stack.stack_down();
    assert_eq!(stack.current_stack, Some(0));
    assert_eq!(stack.stacks, vec![vec![0, 7]]);
}

fn usage(heap: &HeapMemory) -> String {
    (0..heap.usage.len() * 8)
        .map(|index| if heap.usage[index / 8] & (1 << (index % 8)) != 0 { '1' } else { '0' })
        .collect()
}

#[test]
fn the_heap_keeps_a_free_byte_around_what_is_in_use() {
    let mut heap = HeapMemory::new(12);
    assert_eq!(heap.capacity, 16);
    assert_eq!(heap.data.len(), 16);
    assert_eq!(usage(&heap), "0000000000000000");
    assert_eq!(heap.find_free(3), Some(1));
    assert_eq!(heap.allocate(3), 1);
    assert_eq!(usage(&heap), "0111000000000000");
    assert_eq!(heap.allocate(3), 5);
    assert_eq!(heap.allocate(3), 9);
    assert_eq!(usage(&heap), "0111011101110000");
    assert_eq!(heap.find_free(3), None);
    assert_eq!(heap.find_free(2), Some(13));
    heap.free(5);
    assert_eq!(usage(&heap), "0111000001110000");
    assert_eq!(heap.allocate(3), 5);
    heap.free(12);
    assert_eq!(usage(&heap), "0111011101110000");
    assert_eq!(heap.find_free(14), None);
    assert_eq!(HeapMemory::new(16).find_free(14), Some(1));
    assert_eq!(HeapMemory::new(16).find_free(15), None);
    assert_eq!(heap.get_location(14), &[0, 0]);
}

#[test]
fn the_heap_tells_what_free_would_release() {
    let mut heap = HeapMemory::new(12);
    assert_eq!(heap.used_length(0), Some(0));
    assert_eq!(heap.allocate(3), 1);
    assert_eq!(heap.allocate(3), 5);
    assert_eq!(heap.used_length(1), Some(3));
    assert_eq!(heap.used_length(2), Some(2));
    assert_eq!(heap.used_length(4), Some(0));
    assert_eq!(heap.used_length(5), Some(3));
    assert_eq!(heap.used_length(15), Some(0));
    assert_eq!(heap.used_length(16), None);
    assert_eq!(heap.used_length(usize::MAX), None);
    let mut full = HeapMemory::new(8);
    for byte in full.usage.iter_mut() {
        *byte = 0xFF;
    }
    assert_eq!(full.used_length(0), None);
    assert_eq!(full.used_length(7), None);
    full.usage[0] = 0x7F;
    assert_eq!(full.used_length(0), Some(7));
    full.free(2);
    assert_eq!(usage(&full), "11000000");
}

fn memory() -> RuntimeMemory {
    let mut program = Vec::new();
    program.extend(Address::StackDirect(1).get_bytes());
    program.extend(Address::ProgramIndirect(0).get_bytes());
    program.extend([0xAB, 0xCD]);
    let mut stack = StackMemory::new();
    stack.add_stack(3);
    stack.stack_up();
    stack.write_location(1, &[5, 6]);
    RuntimeMemory::new(ProgramCursor::new(program), stack, HeapMemory::new(8))
}

#[test]
fn indirect_addresses_are_followed_to_their_data() {
    let memory = memory();
    let start = 1 + USIZE_BYTES;
    assert_eq!(
        Address::follow_indirect_address(&Address::ProgramIndirect(start), &memory),
        Address::ProgramIndirect(0)
    );
    assert_eq!(Address::ProgramIndirect(start).evaluate_to_direct(&memory), Address::StackDirect(1));
    assert_eq!(Address::HeapDirect(3).evaluate_to_direct(&memory), Address::HeapDirect(3));
    assert_eq!(Address::evaluate_direct_address(&Address::StackDirect(2), &memory), &[6]);
    assert_eq!(
        Address::evaluate_direct_address(&Address::ProgramDirect(2 * start), &memory),
        &[0xAB, 0xCD]
    );
    assert_eq!(Address::evaluate_direct_address(&Address::HeapDirect(6), &memory), &[0, 0]);
    assert_eq!(
        Address::ProgramIndirect(start).evaluate_address_to_data(&memory),
        Either::Left(&[5u8, 6][..])
    );
    assert_eq!(
        Address::Immediate(vec![1, 2]).evaluate_address_to_data(&memory),
        Either::Right(vec![1, 2])
    );
    assert_eq!(memory.program().position, 0);
    assert_eq!(memory.stack().current_stack, Some(0));
    assert_eq!(memory.heap().capacity, 8);
}

#[test]
fn the_parts_of_the_memory_can_be_changed() {
    let mut memory = memory();
    assert_eq!(memory.program_mut().get_byte(), 2);
    memory.stack_mut().write_location(0, &[1]);
    assert_eq!(memory.heap_mut().allocate(2), 1);
    assert_eq!(memory.program().position, 1);
    assert_eq!(memory.stack().get_location(0), &[1, 5, 6]);
    assert_eq!(memory.heap().usage, vec![0b0000_0110]);
}

#[test]
fn frames_can_be_changed_in_place() {
    let mut stack = StackMemory::new();
    stack.add_stack(1);
    stack.stack_up();
    stack.add_stack(2);
    let (frame, offset) = stack.get_location_mut(2);
    assert_eq!(offset, 1);
    frame[offset] = 9;
    assert_eq!(stack.stacks, vec![vec![0], vec![0, 9]]);
}

#[test]
fn programs_convert_to_and_from_bytes() {
    let memory = MemoryManager::from(vec![1u8, 2, 3]);
    assert_eq!(memory.position(), 3);
    let cursor = ProgramCursor::from(MemoryManager::from_bytes(vec![4, 5]));
    assert_eq!((cursor.position, cursor.program.clone()), (0, vec![4, 5]));
    assert_eq!(Vec::<u8>::from(memory), vec![1, 2, 3]);
    assert_eq!(MemoryManager::from_bytes(vec![6]).into_bytes(), vec![6]);
}

#[test]
fn file_names() {
    assert_eq!(dump_file_name("out".to_string()), "out.b");
    assert_eq!(
        compiled_file_name("out".to_string()),
        format!("out - {}.cwhy", usize::BITS)
    );
    let parts = |text: &str| text.split('.').map(|part| part.to_string()).collect::<Vec<_>>();
    assert_eq!(join_file_name(&parts("a.b.c.why")), "a/b/c.why");
    assert_eq!(join_file_name(&parts("main.why")), "main.why");
    assert_eq!(join_file_name(&[]), "");
}

#[test]
fn decimal_text() {
    assert_eq!(usize_to_decimal(0), "0");
    assert_eq!(usize_to_decimal(9), "9");
    assert_eq!(usize_to_decimal(10), "10");
    assert_eq!(usize_to_decimal(usize::MAX), usize::MAX.to_string());
    assert_eq!(int_to_decimal(-1), "-1");
    assert_eq!(int_to_decimal(i128::MIN), i128::MIN.to_string());
    assert_eq!(int_to_decimal(i128::MAX), i128::MAX.to_string());
}

#[test]
fn values_are_held_borrowed_or_owned() {
    let value = 5u8;
    assert_eq!(*RefOrBox::from_ref(&value).as_ref(), 5);
    assert_eq!(*RefOrBox::from_owned(6u8).as_ref(), 6);
    assert_eq!(*RefOrBox::from_box(Box::new(7u8)).as_ref(), 7);
    assert!(matches!(RefOrBox::from_ref(&value), RefOrBox::Ref(_)));
    assert!(matches!(RefOrBox::from_owned(value), RefOrBox::Box(_)));
}
