//! Addresses: where a value lives, and how an address is written into a
//! program.
use vstd::prelude::*;
use vstd::slice::slice_subrange;
use either::Either;
use crate::memory::runtime_memory::stack_memory::stack_location;
use crate::memory::runtime_memory::RuntimeMemory;
use crate::util::{
    lemma_le_bytes_len, lemma_usize_round_trip, lemma_word_width, lemma_le_bytes_of_value,
    read_usize, usize_at, usize_bytes, usize_to_bytes, USIZE_BYTES,
};

verus! {

/// Number of bytes of the tag that starts every written address.
pub const ADDRESS_CODE_BYTES: usize = 1;

pub const IMMEDIATE_CODE: u8 = 0;

pub const STACK_DIRECT_CODE: u8 = 2;

pub const STACK_INDIRECT_CODE: u8 = 3;

pub const HEAP_DIRECT_CODE: u8 = 5;

pub const HEAP_INDIRECT_CODE: u8 = 6;

pub const PROGRAM_DIRECT_CODE: u8 = 8;

pub const PROGRAM_INDIRECT_CODE: u8 = 9;

/// Where a value lives.
///
/// An immediate address carries the value itself and cannot be written to.
/// A direct address names a cell of the stack, the heap or the program; an
/// indirect address names a cell that holds another written address.
#[derive(PartialEq, Debug)]
pub enum Address {
    Immediate(Vec<u8>),
    StackDirect(usize),
    StackIndirect(usize),
    HeapDirect(usize),
    HeapIndirect(usize),
    ProgramDirect(usize),
    ProgramIndirect(usize),
}

/// True of the tags that start a written address.
pub open spec fn is_address_code(code: u8) -> bool {
    code == IMMEDIATE_CODE || code == STACK_DIRECT_CODE || code == STACK_INDIRECT_CODE || code
        == HEAP_DIRECT_CODE || code == HEAP_INDIRECT_CODE || code == PROGRAM_DIRECT_CODE || code
        == PROGRAM_INDIRECT_CODE
}

/// The address with the tag `code`, other than immediate, and the given offset.
pub open spec fn address_from(code: u8, offset: usize) -> Address {
    if code == STACK_DIRECT_CODE {
        Address::StackDirect(offset)
    } else if code == STACK_INDIRECT_CODE {
        Address::StackIndirect(offset)
    } else if code == HEAP_DIRECT_CODE {
        Address::HeapDirect(offset)
    } else if code == HEAP_INDIRECT_CODE {
        Address::HeapIndirect(offset)
    } else if code == PROGRAM_DIRECT_CODE {
        Address::ProgramDirect(offset)
    } else {
        Address::ProgramIndirect(offset)
    }
}

/// True where `data` starts with a written address that can be read, given
/// the length of an immediate value where there is one to read.
pub open spec fn readable_address(data: Seq<u8>, expected_len: Option<usize>) -> bool {
    &&& data.len() >= ADDRESS_CODE_BYTES
    &&& is_address_code(data[0])
    &&& data[0] == IMMEDIATE_CODE ==> expected_len is Some && ADDRESS_CODE_BYTES
        + expected_len->0 <= data.len()
    &&& data[0] != IMMEDIATE_CODE ==> ADDRESS_CODE_BYTES + USIZE_BYTES <= data.len()
}

/// True where `address` is what the front of `data` spells, and `consumed`
/// the number of bytes that spell it.
pub open spec fn reads_as(
    data: Seq<u8>,
    expected_len: Option<usize>,
    address: Address,
    consumed: int,
) -> bool {
    if data[0] == IMMEDIATE_CODE {
        &&& address matches Address::Immediate(value)
        &&& value@ == data.subrange(
            ADDRESS_CODE_BYTES as int,
            ADDRESS_CODE_BYTES + expected_len->0,
        )
        &&& consumed == ADDRESS_CODE_BYTES + expected_len->0
    } else {
        &&& address == address_from(data[0], usize_at(data, ADDRESS_CODE_BYTES as int) as usize)
        &&& consumed == ADDRESS_CODE_BYTES + USIZE_BYTES
    }
}

impl Address {
    /// The tag that starts the written form.
    pub open spec fn code(self) -> u8 {
        match self {
            Address::Immediate(_) => IMMEDIATE_CODE,
            Address::StackDirect(_) => STACK_DIRECT_CODE,
            Address::StackIndirect(_) => STACK_INDIRECT_CODE,
            Address::HeapDirect(_) => HEAP_DIRECT_CODE,
            Address::HeapIndirect(_) => HEAP_INDIRECT_CODE,
            Address::ProgramDirect(_) => PROGRAM_DIRECT_CODE,
            Address::ProgramIndirect(_) => PROGRAM_INDIRECT_CODE,
        }
    }

    /// What follows the tag: the value of an immediate address, the
    /// platform-width offset of any other.
    pub open spec fn payload(self) -> Seq<u8> {
        match self {
            Address::Immediate(value) => value@,
            Address::StackDirect(offset)
            | Address::StackIndirect(offset)
            | Address::HeapDirect(offset)
            | Address::HeapIndirect(offset)
            | Address::ProgramDirect(offset)
            | Address::ProgramIndirect(offset) => usize_bytes(offset),
        }
    }

    /// The written form: the tag, then the payload.
    pub open spec fn bytes(self) -> Seq<u8> {
        seq![self.code()] + self.payload()
    }

    /// The length that a reader must be told to read this address back: that
    /// of the value where the address is immediate, none otherwise.
    pub open spec fn length_hint(self) -> Option<usize> {
        match self {
            Address::Immediate(value) => Some(value@.len() as usize),
            _ => None,
        }
    }

    /// True of the addresses that name a cell directly.
    pub open spec fn is_direct(self) -> bool {
        self is StackDirect || self is HeapDirect || self is ProgramDirect
    }

    /// True of the addresses that name a cell holding another address.
    pub open spec fn is_indirect(self) -> bool {
        self is StackIndirect || self is HeapIndirect || self is ProgramIndirect
    }

    /// Reads the address written at the front of `data`. `expected_len` is the
    /// length of the value of an immediate address, which the written form
    /// does not carry. Returns the address and the number of bytes read.
    pub fn get_address(data: &[u8], expected_len: Option<usize>) -> (read: (Address, usize))
        requires
            readable_address(data@, expected_len),
        ensures
            reads_as(data@, expected_len, read.0, read.1 as int),
    {
        let code: u8 = data[0];
        if code == IMMEDIATE_CODE {
            let length: usize = expected_len.unwrap();
            let value = slice_subrange(data, ADDRESS_CODE_BYTES, ADDRESS_CODE_BYTES + length);
            let mut copy: Vec<u8> = Vec::new();
            let mut i: usize = 0;
            while i < length
                invariant
                    i <= length,
                    value@.len() == length,
                    copy@ == value@.subrange(0, i as int),
                decreases length - i,
            {
                copy.push(value[i]);
                assert(copy@ =~= value@.subrange(0, i + 1));
                i = i + 1;
            }
            assert(copy@ =~= value@);
            (Address::Immediate(copy), ADDRESS_CODE_BYTES + length)
        } else {
            let rest = slice_subrange(data, ADDRESS_CODE_BYTES, data.len());
            let offset: usize = read_usize(rest);
            assert(rest@.subrange(0, USIZE_BYTES as int) =~= data@.subrange(
                ADDRESS_CODE_BYTES as int,
                ADDRESS_CODE_BYTES + USIZE_BYTES,
            ));
            let address = if code == STACK_DIRECT_CODE {
                Address::StackDirect(offset)
            } else if code == STACK_INDIRECT_CODE {
                Address::StackIndirect(offset)
            } else if code == HEAP_DIRECT_CODE {
                Address::HeapDirect(offset)
            } else if code == HEAP_INDIRECT_CODE {
                Address::HeapIndirect(offset)
            } else if code == PROGRAM_DIRECT_CODE {
                Address::ProgramDirect(offset)
            } else {
                Address::ProgramIndirect(offset)
            };
            (address, ADDRESS_CODE_BYTES + USIZE_BYTES)
        }
    }

    /// The written form of this address.
    pub fn get_bytes(&self) -> (bytes: Vec<u8>)
        ensures
            bytes@ == self.bytes(),
    {
        match self {
            Address::Immediate(value) => {
                let mut bytes: Vec<u8> = Vec::new();
                bytes.push(IMMEDIATE_CODE);
                let mut i: usize = 0;
                while i < value.len()
                    invariant
                        i <= value@.len(),
                        bytes@ == seq![IMMEDIATE_CODE] + value@.subrange(0, i as int),
                    decreases value@.len() - i,
                {
                    bytes.push(value[i]);
                    assert(bytes@ =~= seq![IMMEDIATE_CODE] + value@.subrange(0, i + 1));
                    i = i + 1;
                }
                assert(value@.subrange(0, value@.len() as int) =~= value@);
                bytes
            },
            Address::StackDirect(offset) => make_bytes(STACK_DIRECT_CODE, *offset),
            Address::StackIndirect(offset) => make_bytes(STACK_INDIRECT_CODE, *offset),
            Address::HeapDirect(offset) => make_bytes(HEAP_DIRECT_CODE, *offset),
            Address::HeapIndirect(offset) => make_bytes(HEAP_INDIRECT_CODE, *offset),
            Address::ProgramDirect(offset) => make_bytes(PROGRAM_DIRECT_CODE, *offset),
            Address::ProgramIndirect(offset) => make_bytes(PROGRAM_INDIRECT_CODE, *offset),
        }
    }

    /// A copy of this address.
    pub fn duplicate(&self) -> (copy: Address)
        ensures
            copy.code() == self.code(),
            copy.payload() == self.payload(),
            !(self is Immediate) ==> copy == *self,
    {
        match self {
            Address::Immediate(value) => {
                let mut copy: Vec<u8> = Vec::new();
                let mut i: usize = 0;
                while i < value.len()
                    invariant
                        i <= value@.len(),
                        copy@ == value@.subrange(0, i as int),
                    decreases value@.len() - i,
                {
                    copy.push(value[i]);
                    assert(copy@ =~= value@.subrange(0, i + 1));
                    i = i + 1;
                }
                assert(value@.subrange(0, value@.len() as int) =~= value@);
                Address::Immediate(copy)
            },
            Address::StackDirect(offset) => Address::StackDirect(*offset),
            Address::StackIndirect(offset) => Address::StackIndirect(*offset),
            Address::HeapDirect(offset) => Address::HeapDirect(*offset),
            Address::HeapIndirect(offset) => Address::HeapIndirect(*offset),
            Address::ProgramDirect(offset) => Address::ProgramDirect(*offset),
            Address::ProgramIndirect(offset) => Address::ProgramIndirect(*offset),
        }
    }

    /// The number of bytes of the written form.
    pub fn written_length(&self) -> (length: usize)
        requires
            self.bytes().len() <= usize::MAX,
        ensures
            length == self.bytes().len(),
    {
        proof {
            lemma_address_length(*self);
        }
        match self {
            Address::Immediate(value) => ADDRESS_CODE_BYTES + value.len(),
            _ => ADDRESS_CODE_BYTES + USIZE_BYTES,
        }
    }
}

fn make_bytes(code: u8, offset: usize) -> (bytes: Vec<u8>)
    ensures
        bytes@ == seq![code] + usize_bytes(offset),
{
    let mut bytes: Vec<u8> = Vec::new();
    bytes.push(code);
    let mut word = usize_to_bytes(offset);
    bytes.append(&mut word);
    bytes
}

/// The written form is the tag and, unless the address is immediate, one
/// machine word.
pub proof fn lemma_address_length(address: Address)
    ensures
        address is Immediate ==> address.bytes().len() == ADDRESS_CODE_BYTES
            + address->Immediate_0@.len(),
        !(address is Immediate) ==> address.bytes().len() == ADDRESS_CODE_BYTES + USIZE_BYTES,
        address.bytes()[0] == address.code(),
        is_address_code(address.code()),
{
    lemma_le_bytes_len(0, USIZE_BYTES as nat);
    match address {
        Address::Immediate(_) => {},
        Address::StackDirect(offset)
        | Address::StackIndirect(offset)
        | Address::HeapDirect(offset)
        | Address::HeapIndirect(offset)
        | Address::ProgramDirect(offset)
        | Address::ProgramIndirect(offset) => {
            lemma_le_bytes_len(offset as nat, USIZE_BYTES as nat);
        },
    }
}

/// An address that was written can be read back, and reads back as itself:
/// the same tag and payload, after exactly the bytes written; an address
/// other than immediate reads back as the very same address. The value of an
/// immediate address reads back given its length.
pub proof fn lemma_address_round_trip(address: Address, read: Address, consumed: int)
    requires
        address is Immediate ==> address->Immediate_0@.len() + ADDRESS_CODE_BYTES <= usize::MAX,
        reads_as(address.bytes(), address.length_hint(), read, consumed),
    ensures
        readable_address(address.bytes(), address.length_hint()),
        read.code() == address.code(),
        read.payload() == address.payload(),
        read.bytes() == address.bytes(),
        consumed == address.bytes().len(),
        !(address is Immediate) ==> read == address,
{
    lemma_address_length(address);
    let data = address.bytes();
    match address {
        Address::Immediate(value) => {
            assert(data.subrange(1, 1 + value@.len() as int) =~= value@);
        },
        Address::StackDirect(offset)
        | Address::StackIndirect(offset)
        | Address::HeapDirect(offset)
        | Address::HeapIndirect(offset)
        | Address::ProgramDirect(offset)
        | Address::ProgramIndirect(offset) => {
            lemma_usize_round_trip(offset);
            assert(data.subrange(1, 1 + USIZE_BYTES) =~= usize_bytes(offset));
        },
    }
}

/// Whatever can be read from the front of `data` is written back as the
/// bytes it was read from.
pub proof fn lemma_address_read_write(
    data: Seq<u8>,
    expected_len: Option<usize>,
    read: Address,
    consumed: int,
)
    requires
        readable_address(data, expected_len),
        reads_as(data, expected_len, read, consumed),
    ensures
        read.bytes() == data.subrange(0, consumed),
        read.code() == data[0],
{
    if data[0] == IMMEDIATE_CODE {
        assert(read.bytes() =~= data.subrange(0, consumed));
    } else {
        let word = data.subrange(ADDRESS_CODE_BYTES as int, ADDRESS_CODE_BYTES + USIZE_BYTES);
        lemma_le_bytes_of_value(word);
        lemma_word_width();
        assert(read.bytes() =~= data.subrange(0, consumed));
    }
}

/// The type `either::Either`: a value of one of two types.
#[verifier::external_type_specification]
#[verifier::external_body]
#[verifier::reject_recursive_types(L)]
#[verifier::reject_recursive_types(R)]
pub struct ExEither<L, R>(either::Either<L, R>);

/// True where the data is held as `Left`, which is how borrowed data is
/// held.
pub uninterp spec fn either_is_left(data: Either<&[u8], Vec<u8>>) -> bool;

/// The bytes that the data holds, whichever way it holds them.
pub uninterp spec fn either_bytes(data: Either<&[u8], Vec<u8>>) -> Seq<u8>;

/// Borrowed bytes as data.
///
/// Trusted: `either::Either::Left` holds the slice that it is given.
#[verifier::external_body]
fn borrowed_data<'a>(bytes: &'a [u8]) -> (data: Either<&'a [u8], Vec<u8>>)
    ensures
        either_is_left(data),
        either_bytes(data) == bytes@,
{
    Either::Left(bytes)
}

/// Owned bytes as data.
///
/// Trusted: `either::Either::Right` holds the vector that it is given.
#[verifier::external_body]
fn owned_data<'a>(bytes: Vec<u8>) -> (data: Either<&'a [u8], Vec<u8>>)
    ensures
        !either_is_left(data),
        either_bytes(data) == bytes@,
{
    Either::Right(bytes)
}

impl Address {
    /// True where the cell that the address names exists, whether the
    /// address names it as the cell of a value or as the cell of another
    /// address.
    pub open spec fn names_cell(self, memory: RuntimeMemory) -> bool {
        match self {
            Address::Immediate(_) => false,
            Address::StackDirect(offset) | Address::StackIndirect(offset) => {
                &&& memory.stack.current_stack is Some
                &&& stack_location(
                    memory.stack.stacks@,
                    memory.stack.current_stack->0 as int,
                    offset as int,
                ) is Some
            },
            Address::HeapDirect(offset) | Address::HeapIndirect(offset) => offset
                <= memory.heap.data@.len(),
            Address::ProgramDirect(offset) | Address::ProgramIndirect(offset) => offset
                <= memory.program.program@.len(),
        }
    }

    /// The bytes from the cell that the address names on: to the end of the
    /// frame for a cell of the stack, to the end of the heap or of the
    /// program otherwise.
    pub open spec fn cell(self, memory: RuntimeMemory) -> Seq<u8> {
        match self {
            Address::Immediate(_) => Seq::empty(),
            Address::StackDirect(offset) | Address::StackIndirect(offset) => {
                let (stack, place) = stack_location(
                    memory.stack.stacks@,
                    memory.stack.current_stack->0 as int,
                    offset as int,
                )->0;
                memory.stack.stacks@[stack]@.subrange(
                    place,
                    memory.stack.stacks@[stack]@.len() as int,
                )
            },
            Address::HeapDirect(offset) | Address::HeapIndirect(offset) => memory.heap.data@.subrange(
                offset as int,
                memory.heap.data@.len() as int,
            ),
            Address::ProgramDirect(offset)
            | Address::ProgramIndirect(offset) => memory.program.program@.subrange(
                offset as int,
                memory.program.program@.len() as int,
            ),
        }
    }

    /// True where the address is indirect and its cell holds an address
    /// that can be read, which is then no immediate one.
    pub open spec fn can_follow(self, memory: RuntimeMemory) -> bool {
        self.is_indirect() && self.names_cell(memory) && readable_address(self.cell(memory), None)
    }

    /// The address that the cell of an indirect address holds.
    pub open spec fn followed(self, memory: RuntimeMemory) -> Address {
        address_from(
            self.cell(memory)[0],
            usize_at(self.cell(memory), ADDRESS_CODE_BYTES as int) as usize,
        )
    }

    /// True where following the address `steps` times leads to a direct
    /// address, and no fewer times do.
    pub open spec fn resolves_in(self, memory: RuntimeMemory, steps: nat) -> bool
        decreases steps,
    {
        if self.is_direct() {
            steps == 0
        } else {
            self.can_follow(memory) && steps > 0 && self.followed(memory).resolves_in(
                memory,
                (steps - 1) as nat,
            )
        }
    }

    /// True where following the address leads to a direct address.
    pub open spec fn resolves(self, memory: RuntimeMemory) -> bool {
        exists|steps: nat| self.resolves_in(memory, steps)
    }

    /// The number of times that the address has to be followed to reach a
    /// direct address.
    pub open spec fn steps(self, memory: RuntimeMemory) -> nat {
        choose|steps: nat| self.resolves_in(memory, steps)
    }

    /// The address after following it `steps` times.
    pub open spec fn followed_times(self, memory: RuntimeMemory, steps: nat) -> Address
        decreases steps,
    {
        if steps == 0 {
            self
        } else {
            self.followed(memory).followed_times(memory, (steps - 1) as nat)
        }
    }

    /// The direct address that following the address leads to.
    pub open spec fn direct(self, memory: RuntimeMemory) -> Address {
        self.followed_times(memory, self.steps(memory))
    }

    /// True where the data of the address can be had: the address is
    /// immediate, or leads to a direct address whose cell exists.
    pub open spec fn has_data(self, memory: RuntimeMemory) -> bool {
        self is Immediate || (self.resolves(memory) && self.direct(memory).names_cell(memory))
    }

    /// The bytes from the cell of a direct address on.
    pub fn evaluate_direct_address<'a>(address: &Address, runtime_memory: &'a RuntimeMemory) -> (bytes:
        &'a [u8])
        requires
            address.is_direct(),
            address.names_cell(*runtime_memory),
        ensures
            bytes@ == address.cell(*runtime_memory),
    {
        match address {
            Address::StackDirect(offset) => runtime_memory.stack().get_location(*offset),
            Address::HeapDirect(offset) => runtime_memory.heap().get_location(*offset),
            Address::ProgramDirect(offset) => runtime_memory.program().get_location(*offset),
            _ => runtime_memory.program().get_location(0),
        }
    }

    /// The address that the cell of an indirect address holds.
    pub fn follow_indirect_address(address: &Address, runtime_memory: &RuntimeMemory) -> (next:
        Address)
        requires
            address.can_follow(*runtime_memory),
        ensures
            next == address.followed(*runtime_memory),
            !(next is Immediate),
    {
        match address {
            Address::StackIndirect(offset) => Address::get_address(
                runtime_memory.stack().get_location(*offset),
                None,
            ).0,
            Address::HeapIndirect(offset) => Address::get_address(
                runtime_memory.heap().get_location(*offset),
                None,
            ).0,
            _ => {
                let offset: usize = match address {
                    Address::ProgramIndirect(offset) => *offset,
                    _ => 0,
                };
                Address::get_address(runtime_memory.program().get_location(offset), None).0
            },
        }
    }

    /// The direct address that following the address leads to.
    pub fn evaluate_to_direct(self, runtime_memory: &RuntimeMemory) -> (direct: Address)
        requires
            self.resolves(*runtime_memory),
        ensures
            direct == self.direct(*runtime_memory),
            direct.is_direct(),
        decreases self.steps(*runtime_memory),
    {
        proof {
            lemma_steps(self, *runtime_memory, self.steps(*runtime_memory));
        }
        match self {
            Address::StackDirect(_) | Address::HeapDirect(_) | Address::ProgramDirect(_) => {
                return self;
            },
            _ => {},
        }
        let next = Address::follow_indirect_address(&self, runtime_memory);
        proof {
            lemma_steps(next, *runtime_memory, (self.steps(*runtime_memory) - 1) as nat);
        }
        next.evaluate_to_direct(runtime_memory)
    }

    /// The data of the address: the value that an immediate address
    /// carries, which is handed on as it is; for any other address, the
    /// bytes from the cell on that following the address leads to.
    pub fn evaluate_address_to_data<'a>(self, runtime_memory: &'a RuntimeMemory) -> (data: Either<
        &'a [u8],
        Vec<u8>,
    >)
        requires
            self.has_data(*runtime_memory),
        ensures
            self matches Address::Immediate(value) ==> !either_is_left(data) && either_bytes(data)
                == value@,
            !(self is Immediate) ==> either_is_left(data) && either_bytes(data) == self.direct(
                *runtime_memory,
            ).cell(*runtime_memory),
    {
        match self {
            Address::Immediate(value) => owned_data(value),
            other => {
                let direct = other.evaluate_to_direct(runtime_memory);
                borrowed_data(Address::evaluate_direct_address(&direct, runtime_memory))
            },
        }
    }
}

/// The number of times that an address has to be followed to reach a
/// direct address is determined: an address that resolves in some number of
/// steps resolves in no other.
pub proof fn lemma_steps(address: Address, memory: RuntimeMemory, steps: nat)
    requires
        address.resolves_in(memory, steps),
    ensures
        address.steps(memory) == steps,
        address.resolves_in(memory, address.steps(memory)),
{
    let chosen = address.steps(memory);
    lemma_resolves_once(address, memory, steps, chosen);
}

/// An address resolves in at most one number of steps.
pub proof fn lemma_resolves_once(address: Address, memory: RuntimeMemory, first: nat, second: nat)
    requires
        address.resolves_in(memory, first),
        address.resolves_in(memory, second),
    ensures
        first == second,
    decreases first,
{
    if !address.is_direct() {
        lemma_resolves_once(
            address.followed(memory),
            memory,
            (first - 1) as nat,
            (second - 1) as nat,
        );
    }
}

} // verus!
