//! The instructions of a program and their written form: one byte that names
//! the instruction, then its operands. Machine words are written in platform
//! width, least significant byte first.
use vstd::prelude::*;
use crate::memory::address::Address;
use crate::memory::memory_manager::{patched, MemoryManager};
use crate::util::{lemma_usize_round_trip, usize_at, usize_bytes, usize_to_bytes, USIZE_BYTES};

verus! {

pub const STACK_CREATE_CODE: u8 = 0;

pub const STACK_UP_CODE: u8 = 1;

pub const COPY_CODE: u8 = 3;

pub const STACK_DOWN_CODE: u8 = 4;

pub const DUMP_CODE: u8 = 5;

pub const VIEW_MEMORY_CODE: u8 = 6;

pub const BINARY_NOT_CODE: u8 = 7;

pub const BINARY_AND_CODE: u8 = 8;

pub const JUMP_IF_NOT_CODE: u8 = 9;

pub const JUMP_CODE: u8 = 10;

pub const DYNAMIC_JUMP_CODE: u8 = 11;

pub const BINARY_OR_CODE: u8 = 12;

pub const ADD_CODE: u8 = 13;

pub const EQUALITY_CODE: u8 = 14;

pub const NOT_EQUAL_CODE: u8 = 15;

pub const VIEW_MEMORY_DEC_CODE: u8 = 16;

/// An instruction without operands.
pub open spec fn plain_bytes(code: u8) -> Seq<u8> {
    seq![code]
}

/// An instruction whose operand is one machine word.
pub open spec fn word_bytes(code: u8, word: usize) -> Seq<u8> {
    seq![code] + usize_bytes(word)
}

/// An instruction whose operand is one address.
pub open spec fn address_bytes(code: u8, address: Address) -> Seq<u8> {
    seq![code] + address.bytes()
}

/// An instruction that reads `length` bytes at one address and writes as many
/// at another, from the written forms of the addresses.
pub open spec fn unary_written(code: u8, from: Seq<u8>, to: Seq<u8>, length: usize) -> Seq<u8> {
    seq![code] + from + to + usize_bytes(length)
}

/// An instruction that reads `length` bytes at one address and writes as many
/// at another.
pub open spec fn unary_bytes(code: u8, from: Address, to: Address, length: usize) -> Seq<u8> {
    unary_written(code, from.bytes(), to.bytes(), length)
}

/// An instruction that reads `length` bytes at each of two addresses and
/// writes its result at a third.
pub open spec fn binary_bytes(
    code: u8,
    left: Address,
    right: Address,
    to: Address,
    length: usize,
) -> Seq<u8> {
    binary_written(code, left.bytes(), right.bytes(), to.bytes(), length)
}

/// An instruction with two operands and a destination, from the written
/// forms of the addresses.
pub open spec fn binary_written(
    code: u8,
    left: Seq<u8>,
    right: Seq<u8>,
    to: Seq<u8>,
    length: usize,
) -> Seq<u8> {
    seq![code] + left + right + to + usize_bytes(length)
}

/// The written form of an immediate address that carries `value`.
pub open spec fn immediate_written(value: Seq<u8>) -> Seq<u8> {
    seq![crate::memory::address::IMMEDIATE_CODE] + value
}

/// A jump that is taken where the byte at `condition` is false.
pub open spec fn jump_if_not_bytes(condition: Address, destination: usize) -> Seq<u8> {
    seq![JUMP_IF_NOT_CODE] + condition.bytes() + usize_bytes(destination)
}

/// True where a machine word can be patched in at `position` of a program of
/// `length` bytes.
pub open spec fn word_fits(position: usize, length: nat) -> bool {
    position + USIZE_BYTES <= length
}

fn emit_plain(program_memory: &mut MemoryManager, code: u8) -> (address: usize)
    ensures
        address == old(program_memory)@.len(),
        final(program_memory)@ == old(program_memory)@ + plain_bytes(code),
{
    let address = program_memory.append_byte(code);
    assert(program_memory@ =~= old(program_memory)@ + plain_bytes(code));
    address
}

fn emit_word(program_memory: &mut MemoryManager, code: u8, word: usize) -> (address: usize)
    ensures
        address == old(program_memory)@.len(),
        final(program_memory)@ == old(program_memory)@ + word_bytes(code, word),
        final(program_memory)@.len() == address + 1 + USIZE_BYTES,
{
    let address = program_memory.append_byte(code);
    let bytes = usize_to_bytes(word);
    program_memory.append(bytes.as_slice());
    assert(program_memory@ =~= old(program_memory)@ + word_bytes(code, word));
    address
}

fn emit_address(program_memory: &mut MemoryManager, code: u8, address: &Address) -> (position:
    usize)
    ensures
        position == old(program_memory)@.len(),
        final(program_memory)@ == old(program_memory)@ + address_bytes(code, *address),
{
    let position = program_memory.append_byte(code);
    let bytes = address.get_bytes();
    program_memory.append(bytes.as_slice());
    assert(program_memory@ =~= old(program_memory)@ + address_bytes(code, *address));
    position
}

fn emit_unary(
    program_memory: &mut MemoryManager,
    code: u8,
    from: &Address,
    to: &Address,
    length: usize,
) -> (position: usize)
    ensures
        position == old(program_memory)@.len(),
        final(program_memory)@ == old(program_memory)@ + unary_bytes(code, *from, *to, length),
{
    let position = program_memory.append_byte(code);
    let from_bytes = from.get_bytes();
    program_memory.append(from_bytes.as_slice());
    let to_bytes = to.get_bytes();
    program_memory.append(to_bytes.as_slice());
    let length_bytes = usize_to_bytes(length);
    program_memory.append(length_bytes.as_slice());
    assert(program_memory@ =~= old(program_memory)@ + unary_bytes(code, *from, *to, length));
    position
}

fn emit_binary(
    program_memory: &mut MemoryManager,
    code: u8,
    left: &Address,
    right: &Address,
    to: &Address,
    length: usize,
) -> (position: usize)
    ensures
        position == old(program_memory)@.len(),
        final(program_memory)@ == old(program_memory)@ + binary_bytes(
            code,
            *left,
            *right,
            *to,
            length,
        ),
{
    let position = program_memory.append_byte(code);
    let left_bytes = left.get_bytes();
    program_memory.append(left_bytes.as_slice());
    let right_bytes = right.get_bytes();
    program_memory.append(right_bytes.as_slice());
    let to_bytes = to.get_bytes();
    program_memory.append(to_bytes.as_slice());
    let length_bytes = usize_to_bytes(length);
    program_memory.append(length_bytes.as_slice());
    assert(program_memory@ =~= old(program_memory)@ + binary_bytes(
        code,
        *left,
        *right,
        *to,
        length,
    ));
    position
}

fn patch_word(program_memory: &mut MemoryManager, position: usize, word: usize)
    requires
        word_fits(position, old(program_memory)@.len()),
    ensures
        final(program_memory)@ == patched(old(program_memory)@, position as int, usize_bytes(word)),
        final(program_memory)@.len() == old(program_memory)@.len(),
        usize_at(final(program_memory)@, position as int) == word,
{
    let bytes = usize_to_bytes(word);
    program_memory.overwrite(position, bytes.as_slice());
    proof {
        lemma_usize_round_trip(word);
        assert(program_memory@.subrange(position as int, position + USIZE_BYTES) =~= usize_bytes(
            word,
        ));
    }
}

/// A word patched into a program reads back, and leaves every other word
/// that does not overlap it as it was.
pub proof fn lemma_patched_word(memory: Seq<u8>, position: int, word: usize, other: int)
    requires
        0 <= position,
        position + USIZE_BYTES <= memory.len(),
    ensures
        usize_at(patched(memory, position, usize_bytes(word)), position) == word,
        patched(memory, position, usize_bytes(word)).len() == memory.len(),
        0 <= other && other + USIZE_BYTES <= memory.len() && (other + USIZE_BYTES <= position
            || position + USIZE_BYTES <= other) ==> usize_at(
            patched(memory, position, usize_bytes(word)),
            other,
        ) == usize_at(memory, other),
{
    lemma_usize_round_trip(word);
    let after = patched(memory, position, usize_bytes(word));
    assert(after.subrange(position, position + USIZE_BYTES) =~= usize_bytes(word));
    if 0 <= other && other + USIZE_BYTES <= memory.len() && (other + USIZE_BYTES <= position
        || position + USIZE_BYTES <= other) {
        assert(after.subrange(other, other + USIZE_BYTES) =~= memory.subrange(
            other,
            other + USIZE_BYTES,
        ));
    }
}

/// Makes room for a stack frame of a given size. The size can be patched
/// once it is known.
pub struct StackCreateInstruction {
    pub address: usize,
}

impl StackCreateInstruction {
    /// The written form.
    pub open spec fn bytes(size: usize) -> Seq<u8> {
        word_bytes(STACK_CREATE_CODE, size)
    }

    /// The position of the frame size in the program.
    pub open spec fn size_position(self) -> int {
        self.address + 1
    }

    /// True where the instruction lies inside a program of `length` bytes.
    pub open spec fn within(self, length: nat) -> bool {
        self.address + 1 + USIZE_BYTES <= length
    }

    /// Appends the instruction to the program.
    pub fn new_alloc(program_memory: &mut MemoryManager, size: usize) -> (instruction: Self)
        ensures
            instruction.address == old(program_memory)@.len(),
            final(program_memory)@ == old(program_memory)@ + Self::bytes(size),
            instruction.within(final(program_memory)@.len()),
    {
        StackCreateInstruction { address: emit_word(program_memory, STACK_CREATE_CODE, size) }
    }

    /// Patches the frame size.
    pub fn set_stack_size(&self, size: usize, program_memory: &mut MemoryManager)
        requires
            self.within(old(program_memory)@.len()),
        ensures
            final(program_memory)@ == patched(
                old(program_memory)@,
                self.size_position(),
                usize_bytes(size),
            ),
            final(program_memory)@.len() == old(program_memory)@.len(),
            usize_at(final(program_memory)@, self.size_position()) == size,
    {
        let length: usize = program_memory.position();
        assert(self.address + 1 <= length);
        patch_word(program_memory, self.address + 1, size);
    }
}

/// Enters the frame that was created last.
pub struct StackUpInstruction {
    pub address: usize,
}

impl StackUpInstruction {
    /// The written form.
    pub open spec fn bytes() -> Seq<u8> {
        plain_bytes(STACK_UP_CODE)
    }

    /// Appends the instruction to the program.
    pub fn new_alloc(program_memory: &mut MemoryManager) -> (instruction: Self)
        ensures
            instruction.address == old(program_memory)@.len(),
            final(program_memory)@ == old(program_memory)@ + Self::bytes(),
    {
        StackUpInstruction { address: emit_plain(program_memory, STACK_UP_CODE) }
    }
}

/// Leaves the current frame and releases it.
pub struct StackDownInstruction {
    pub address: usize,
}

impl StackDownInstruction {
    /// The written form.
    pub open spec fn bytes() -> Seq<u8> {
        plain_bytes(STACK_DOWN_CODE)
    }

    /// Appends the instruction to the program.
    pub fn new_alloc(program_memory: &mut MemoryManager) -> (instruction: Self)
        ensures
            instruction.address == old(program_memory)@.len(),
            final(program_memory)@ == old(program_memory)@ + Self::bytes(),
    {
        StackDownInstruction { address: emit_plain(program_memory, STACK_DOWN_CODE) }
    }
}

/// Writes the state of the machine out.
pub struct DumpInstruction {
    pub address: usize,
}

impl DumpInstruction {
    /// The written form.
    pub open spec fn bytes() -> Seq<u8> {
        plain_bytes(DUMP_CODE)
    }

    /// Appends the instruction to the program.
    pub fn new_alloc(program_memory: &mut MemoryManager) -> (instruction: Self)
        ensures
            instruction.address == old(program_memory)@.len(),
            final(program_memory)@ == old(program_memory)@ + Self::bytes(),
    {
        DumpInstruction { address: emit_plain(program_memory, DUMP_CODE) }
    }
}

/// Copies `length` bytes from one address to another.
pub struct CopyInstruction {
    pub address: usize,
}

impl CopyInstruction {
    /// The written form.
    pub open spec fn bytes(from: Address, to: Address, length: usize) -> Seq<u8> {
        unary_bytes(COPY_CODE, from, to, length)
    }

    /// Appends the instruction to the program. The destination cannot be an
    /// immediate address, which holds no cell to write to.
    pub fn new_alloc(
        program_memory: &mut MemoryManager,
        from: &Address,
        to: &Address,
        length: usize,
    ) -> (instruction: Self)
        requires
            !(to is Immediate),
        ensures
            instruction.address == old(program_memory)@.len(),
            final(program_memory)@ == old(program_memory)@ + Self::bytes(*from, *to, length),
    {
        CopyInstruction { address: emit_unary(program_memory, COPY_CODE, from, to, length) }
    }
}

/// Writes the bitwise complement of `length` bytes at one address to another.
pub struct BinaryNotInstruction {
    pub address: usize,
}

impl BinaryNotInstruction {
    /// The written form.
    pub open spec fn bytes(from: Address, to: Address, length: usize) -> Seq<u8> {
        unary_bytes(BINARY_NOT_CODE, from, to, length)
    }

    /// Appends the instruction to the program. The destination cannot be an
    /// immediate address.
    pub fn new_alloc(
        program_memory: &mut MemoryManager,
        from: &Address,
        to: &Address,
        length: usize,
    ) -> (instruction: Self)
        requires
            !(to is Immediate),
        ensures
            instruction.address == old(program_memory)@.len(),
            final(program_memory)@ == old(program_memory)@ + Self::bytes(*from, *to, length),
    {
        BinaryNotInstruction {
            address: emit_unary(program_memory, BINARY_NOT_CODE, from, to, length),
        }
    }
}

/// Writes the bitwise conjunction of two operands.
pub struct BinaryAndInstruction {
    pub address: usize,
}

impl BinaryAndInstruction {
    /// The written form.
    pub open spec fn bytes(left: Address, right: Address, to: Address, length: usize) -> Seq<u8> {
        binary_bytes(BINARY_AND_CODE, left, right, to, length)
    }

    /// Appends the instruction to the program. The destination cannot be an
    /// immediate address.
    pub fn new_alloc(
        program_memory: &mut MemoryManager,
        left: &Address,
        right: &Address,
        to: &Address,
        length: usize,
    ) -> (instruction: Self)
        requires
            !(to is Immediate),
        ensures
            instruction.address == old(program_memory)@.len(),
            final(program_memory)@ == old(program_memory)@ + Self::bytes(
                *left,
                *right,
                *to,
                length,
            ),
    {
        BinaryAndInstruction {
            address: emit_binary(program_memory, BINARY_AND_CODE, left, right, to, length),
        }
    }
}

/// Writes the bitwise disjunction of two operands.
pub struct BinaryOrInstruction {
    pub address: usize,
}

impl BinaryOrInstruction {
    /// The written form.
    pub open spec fn bytes(left: Address, right: Address, to: Address, length: usize) -> Seq<u8> {
        binary_bytes(BINARY_OR_CODE, left, right, to, length)
    }

    /// Appends the instruction to the program. The destination cannot be an
    /// immediate address.
    pub fn new_alloc(
        program_memory: &mut MemoryManager,
        left: &Address,
        right: &Address,
        to: &Address,
        length: usize,
    ) -> (instruction: Self)
        requires
            !(to is Immediate),
        ensures
            instruction.address == old(program_memory)@.len(),
            final(program_memory)@ == old(program_memory)@ + Self::bytes(
                *left,
                *right,
                *to,
                length,
            ),
    {
        BinaryOrInstruction {
            address: emit_binary(program_memory, BINARY_OR_CODE, left, right, to, length),
        }
    }
}

/// Writes the sum of two operands, wrapping at the width of the operands.
pub struct AddInstruction {
    pub address: usize,
}

impl AddInstruction {
    /// The written form.
    pub open spec fn bytes(left: Address, right: Address, to: Address, length: usize) -> Seq<u8> {
        binary_bytes(ADD_CODE, left, right, to, length)
    }

    /// Appends the instruction to the program. The destination cannot be an
    /// immediate address.
    pub fn new_alloc(
        program_memory: &mut MemoryManager,
        left: &Address,
        right: &Address,
        to: &Address,
        length: usize,
    ) -> (instruction: Self)
        requires
            !(to is Immediate),
        ensures
            instruction.address == old(program_memory)@.len(),
            final(program_memory)@ == old(program_memory)@ + Self::bytes(
                *left,
                *right,
                *to,
                length,
            ),
    {
        AddInstruction { address: emit_binary(program_memory, ADD_CODE, left, right, to, length) }
    }
}

/// Writes whether two operands are equal.
pub struct EqualityInstruction {
    pub address: usize,
}

impl EqualityInstruction {
    /// The written form.
    pub open spec fn bytes(left: Address, right: Address, to: Address, length: usize) -> Seq<u8> {
        binary_bytes(EQUALITY_CODE, left, right, to, length)
    }

    /// Appends the instruction to the program. The destination cannot be an
    /// immediate address.
    pub fn new_alloc(
        program_memory: &mut MemoryManager,
        left: &Address,
        right: &Address,
        to: &Address,
        length: usize,
    ) -> (instruction: Self)
        requires
            !(to is Immediate),
        ensures
            instruction.address == old(program_memory)@.len(),
            final(program_memory)@ == old(program_memory)@ + Self::bytes(
                *left,
                *right,
                *to,
                length,
            ),
    {
        EqualityInstruction {
            address: emit_binary(program_memory, EQUALITY_CODE, left, right, to, length),
        }
    }
}

/// Writes whether two operands differ.
pub struct NotEqualInstruction {
    pub address: usize,
}

impl NotEqualInstruction {
    /// The written form.
    pub open spec fn bytes(left: Address, right: Address, to: Address, length: usize) -> Seq<u8> {
        binary_bytes(NOT_EQUAL_CODE, left, right, to, length)
    }

    /// Appends the instruction to the program. The destination cannot be an
    /// immediate address.
    pub fn new_alloc(
        program_memory: &mut MemoryManager,
        left: &Address,
        right: &Address,
        to: &Address,
        length: usize,
    ) -> (instruction: Self)
        requires
            !(to is Immediate),
        ensures
            instruction.address == old(program_memory)@.len(),
            final(program_memory)@ == old(program_memory)@ + Self::bytes(
                *left,
                *right,
                *to,
                length,
            ),
    {
        NotEqualInstruction {
            address: emit_binary(program_memory, NOT_EQUAL_CODE, left, right, to, length),
        }
    }
}

/// Shows the bytes at an address.
pub struct ViewMemoryInstruction {
    pub address: usize,
}

impl ViewMemoryInstruction {
    /// The written form.
    pub open spec fn bytes(viewed: Address) -> Seq<u8> {
        address_bytes(VIEW_MEMORY_CODE, viewed)
    }

    /// Appends the instruction to the program.
    pub fn new_alloc(program_memory: &mut MemoryManager, viewed: &Address) -> (instruction: Self)
        ensures
            instruction.address == old(program_memory)@.len(),
            final(program_memory)@ == old(program_memory)@ + Self::bytes(*viewed),
    {
        ViewMemoryInstruction { address: emit_address(program_memory, VIEW_MEMORY_CODE, viewed) }
    }
}

/// Shows the bytes at an address in decimal.
pub struct ViewMemoryDecInstruction {
    pub address: usize,
}

impl ViewMemoryDecInstruction {
    /// The written form.
    pub open spec fn bytes(viewed: Address) -> Seq<u8> {
        address_bytes(VIEW_MEMORY_DEC_CODE, viewed)
    }

    /// Appends the instruction to the program.
    pub fn new_alloc(program_memory: &mut MemoryManager, viewed: &Address) -> (instruction: Self)
        ensures
            instruction.address == old(program_memory)@.len(),
            final(program_memory)@ == old(program_memory)@ + Self::bytes(*viewed),
    {
        ViewMemoryDecInstruction {
            address: emit_address(program_memory, VIEW_MEMORY_DEC_CODE, viewed),
        }
    }
}

/// Jumps to the position that a pointer cell holds.
pub struct DynamicJumpInstruction {
    pub address: usize,
}

impl DynamicJumpInstruction {
    /// The written form.
    pub open spec fn bytes(pointer: Address) -> Seq<u8> {
        address_bytes(DYNAMIC_JUMP_CODE, pointer)
    }

    /// Appends the instruction to the program.
    pub fn new_alloc(program_memory: &mut MemoryManager, pointer: &Address) -> (instruction: Self)
        ensures
            instruction.address == old(program_memory)@.len(),
            final(program_memory)@ == old(program_memory)@ + Self::bytes(*pointer),
    {
        DynamicJumpInstruction {
            address: emit_address(program_memory, DYNAMIC_JUMP_CODE, pointer),
        }
    }
}

/// Jumps to a position of the program. The position can be patched once it
/// is known.
pub struct JumpInstruction {
    pub address: usize,
}

impl JumpInstruction {
    /// The written form.
    pub open spec fn bytes(destination: usize) -> Seq<u8> {
        word_bytes(JUMP_CODE, destination)
    }

    /// The position of the destination in the program.
    pub open spec fn destination_position(self) -> int {
        self.address + 1
    }

    /// The position after the instruction.
    pub open spec fn end(self) -> int {
        self.address + 1 + USIZE_BYTES
    }

    /// True where the instruction lies inside a program of `length` bytes.
    pub open spec fn within(self, length: nat) -> bool {
        self.end() <= length
    }

    /// The destination that the program holds for this jump.
    pub open spec fn destination_in(self, memory: Seq<u8>) -> nat {
        usize_at(memory, self.destination_position())
    }

    /// Appends the instruction to the program.
    pub fn new_alloc(program_memory: &mut MemoryManager, destination: usize) -> (instruction: Self)
        ensures
            instruction.address == old(program_memory)@.len(),
            final(program_memory)@ == old(program_memory)@ + Self::bytes(destination),
            instruction.end() == final(program_memory)@.len(),
    {
        JumpInstruction { address: emit_word(program_memory, JUMP_CODE, destination) }
    }

    /// Patches the destination.
    pub fn set_destination(&self, destination: usize, program_memory: &mut MemoryManager)
        requires
            self.within(old(program_memory)@.len()),
        ensures
            final(program_memory)@ == patched(
                old(program_memory)@,
                self.destination_position(),
                usize_bytes(destination),
            ),
            final(program_memory)@.len() == old(program_memory)@.len(),
            self.destination_in(final(program_memory)@) == destination,
    {
        let length: usize = program_memory.position();
        assert(self.address + 1 <= length);
        patch_word(program_memory, self.address + 1, destination);
    }
}

/// Jumps to a position of the program where a condition is false. The
/// position can be patched once it is known.
pub struct JumpIfNotInstruction {
    pub address: usize,
    /// Where the destination stands in the program.
    pub destination_address: usize,
}

impl JumpIfNotInstruction {
    /// The written form.
    pub open spec fn bytes(condition: Address, destination: usize) -> Seq<u8> {
        jump_if_not_bytes(condition, destination)
    }

    /// The position after the instruction.
    pub open spec fn end(self) -> int {
        self.destination_address + USIZE_BYTES
    }

    /// True where the instruction lies inside a program of `length` bytes.
    pub open spec fn within(self, length: nat) -> bool {
        self.address < self.destination_address && self.end() <= length
    }

    /// The destination that the program holds for this jump.
    pub open spec fn destination_in(self, memory: Seq<u8>) -> nat {
        usize_at(memory, self.destination_address as int)
    }

    /// Appends the instruction to the program.
    pub fn new_alloc(
        program_memory: &mut MemoryManager,
        condition: &Address,
        destination: usize,
    ) -> (instruction: Self)
        ensures
            instruction.address == old(program_memory)@.len(),
            instruction.destination_address == old(program_memory)@.len() + 1
                + condition.bytes().len(),
            final(program_memory)@ == old(program_memory)@ + Self::bytes(*condition, destination),
            instruction.end() == final(program_memory)@.len(),
            instruction.within(final(program_memory)@.len()),
    {
        let address = program_memory.append_byte(JUMP_IF_NOT_CODE);
        let condition_bytes = condition.get_bytes();
        program_memory.append(condition_bytes.as_slice());
        let destination_address = program_memory.position();
        let destination_bytes = usize_to_bytes(destination);
        program_memory.append(destination_bytes.as_slice());
        assert(program_memory@ =~= old(program_memory)@ + Self::bytes(*condition, destination));
        JumpIfNotInstruction { address, destination_address }
    }

    /// Patches the destination.
    pub fn set_destination(&self, destination: usize, program_memory: &mut MemoryManager)
        requires
            self.within(old(program_memory)@.len()),
        ensures
            final(program_memory)@ == patched(
                old(program_memory)@,
                self.destination_address as int,
                usize_bytes(destination),
            ),
            final(program_memory)@.len() == old(program_memory)@.len(),
            self.destination_in(final(program_memory)@) == destination,
    {
        patch_word(program_memory, self.destination_address, destination);
    }
}

/// True where the jumps follow one another without overlap inside a program
/// of `length` bytes.
pub open spec fn jumps_in_order(jumps: Seq<JumpInstruction>, length: nat) -> bool {
    &&& forall|i: int| 0 <= i < jumps.len() ==> (#[trigger] jumps[i]).within(length)
    &&& forall|i: int, j: int|
        0 <= i < j < jumps.len() ==> (#[trigger] jumps[i]).end() <= (#[trigger] jumps[j]).address
}

/// The program after the first `count` jumps were given `destination`.
pub open spec fn all_patched(
    jumps: Seq<JumpInstruction>,
    count: nat,
    memory: Seq<u8>,
    destination: usize,
) -> Seq<u8>
    decreases count,
{
    if count == 0 {
        memory
    } else {
        patched(
            all_patched(jumps, (count - 1) as nat, memory, destination),
            jumps[count - 1].destination_position(),
            usize_bytes(destination),
        )
    }
}

/// Giving jumps a destination keeps the length of the program, and leaves
/// every word that overlaps none of their destinations as it was.
pub proof fn lemma_all_patched_frame(
    jumps: Seq<JumpInstruction>,
    count: nat,
    memory: Seq<u8>,
    destination: usize,
    other: int,
)
    requires
        count <= jumps.len(),
        forall|i: int| 0 <= i < count ==> (#[trigger] jumps[i]).within(memory.len()),
    ensures
        all_patched(jumps, count, memory, destination).len() == memory.len(),
        0 <= other && other + USIZE_BYTES <= memory.len() && (forall|i: int|
            0 <= i < count ==> other + USIZE_BYTES <= (#[trigger] jumps[i]).destination_position()
                || jumps[i].end() <= other) ==> usize_at(
            all_patched(jumps, count, memory, destination),
            other,
        ) == usize_at(memory, other),
    decreases count,
{
    if count > 0 {
        lemma_all_patched_frame(jumps, (count - 1) as nat, memory, destination, other);
        let inner = all_patched(jumps, (count - 1) as nat, memory, destination);
        assert(jumps[count - 1].within(memory.len()));
        lemma_patched_word(inner, jumps[count - 1].destination_position(), destination, other);
        if 0 <= other && other + USIZE_BYTES <= memory.len() && (forall|i: int|
            0 <= i < count ==> other + USIZE_BYTES <= (#[trigger] jumps[i]).destination_position()
                || jumps[i].end() <= other) {
            assert(other + USIZE_BYTES <= jumps[count - 1].destination_position() || jumps[count
                - 1].end() <= other);
        }
    }
}

/// A word patched into a program changes the bytes of the word alone.
pub proof fn lemma_patched_bytes(memory: Seq<u8>, position: int, word: usize, other: int)
    requires
        0 <= other < memory.len(),
        !(position <= other < position + USIZE_BYTES),
    ensures
        patched(memory, position, usize_bytes(word)).len() == memory.len(),
        patched(memory, position, usize_bytes(word))[other] == memory[other],
{
    crate::util::lemma_le_bytes_len(word as nat, USIZE_BYTES as nat);
}

/// Giving jumps a destination changes their destinations alone: every byte
/// of the program that lies in none of them stays as it was.
pub proof fn lemma_all_patched_bytes(
    jumps: Seq<JumpInstruction>,
    count: nat,
    memory: Seq<u8>,
    destination: usize,
    other: int,
)
    requires
        count <= jumps.len(),
        0 <= other < memory.len(),
        forall|i: int|
            0 <= i < count ==> !((#[trigger] jumps[i]).destination_position() <= other
                < jumps[i].end()),
    ensures
        all_patched(jumps, count, memory, destination).len() == memory.len(),
        all_patched(jumps, count, memory, destination)[other] == memory[other],
    decreases count,
{
    if count > 0 {
        lemma_all_patched_bytes(jumps, (count - 1) as nat, memory, destination, other);
        let inner = all_patched(jumps, (count - 1) as nat, memory, destination);
        assert(!(jumps[count - 1].destination_position() <= other < jumps[count - 1].end()));
        lemma_patched_bytes(inner, jumps[count - 1].destination_position(), destination, other);
    }
}

/// Gives every jump of a list the same destination.
pub fn set_all_destinations(
    jumps: &Vec<JumpInstruction>,
    destination: usize,
    program_memory: &mut MemoryManager,
)
    requires
        jumps_in_order(jumps@, old(program_memory)@.len()),
    ensures
        final(program_memory)@ == all_patched(
            jumps@,
            jumps@.len(),
            old(program_memory)@,
            destination,
        ),
        final(program_memory)@.len() == old(program_memory)@.len(),
        forall|i: int|
            0 <= i < jumps@.len() ==> (#[trigger] jumps@[i]).destination_in(final(program_memory)@)
                == destination,
{
    let mut i: usize = 0;
    while i < jumps.len()
        invariant
            i <= jumps@.len(),
            jumps_in_order(jumps@, old(program_memory)@.len()),
            program_memory@.len() == old(program_memory)@.len(),
            program_memory@ == all_patched(jumps@, i as nat, old(program_memory)@, destination),
            forall|k: int|
                0 <= k < i ==> (#[trigger] jumps@[k]).destination_in(program_memory@)
                    == destination,
        decreases jumps@.len() - i,
    {
        let ghost before = program_memory@;
        assert(jumps@[i as int].within(before.len()));
        jumps[i].set_destination(destination, program_memory);
        proof {
            assert forall|k: int| 0 <= k < i implies (#[trigger] jumps@[k]).destination_in(
                program_memory@,
            ) == destination by {
                assert(jumps@[k].within(before.len()));
                assert(jumps@[k].end() <= jumps@[i as int].address);
                lemma_patched_word(
                    before,
                    jumps@[i as int].destination_position(),
                    destination,
                    jumps@[k].destination_position(),
                );
            }
        }
        i = i + 1;
    }
}

} // verus!
