//! A program that is being read, and how far it has been read.
use vstd::prelude::*;
use vstd::slice::slice_subrange;
use crate::memory::address::{readable_address, reads_as, Address};
use crate::memory::memory_manager::MemoryManager;
use crate::util::{read_usize, usize_at, USIZE_BYTES};

verus! {

/// A program and the position of the next byte to read.
pub struct ProgramCursor {
    pub position: usize,
    pub program: Vec<u8>,
}

impl ProgramCursor {
    /// What is left to read.
    pub open spec fn rest(self) -> Seq<u8> {
        self.program@.subrange(self.position as int, self.program@.len() as int)
    }

    /// A cursor at the start of a program.
    pub fn new(program: Vec<u8>) -> (cursor: ProgramCursor)
        ensures
            cursor.position == 0,
            cursor.program == program,
    {
        ProgramCursor { position: 0, program }
    }

    /// A cursor at the start of a program that was compiled.
    pub fn from_memory(memory: MemoryManager) -> (cursor: ProgramCursor)
        ensures
            cursor.position == 0,
            cursor.program@ == memory@,
    {
        ProgramCursor::new(memory.memory)
    }

    /// Reads a byte.
    pub fn get_byte(&mut self) -> (byte: u8)
        requires
            old(self).position < old(self).program@.len(),
        ensures
            byte == old(self).program@[old(self).position as int],
            final(self).position == old(self).position + 1,
            final(self).program == old(self).program,
    {
        let length: usize = self.program.len();
        let b = self.program[self.position];
        self.position = self.position + 1;
        b
    }

    /// Reads a machine word.
    pub fn get_usize(&mut self) -> (word: usize)
        requires
            old(self).position + USIZE_BYTES <= old(self).program@.len(),
        ensures
            word == usize_at(old(self).program@, old(self).position as int),
            final(self).position == old(self).position + USIZE_BYTES,
            final(self).program == old(self).program,
    {
        let rest = slice_subrange(self.program.as_slice(), self.position, self.program.len());
        let r = read_usize(rest);
        assert(rest@.subrange(0, USIZE_BYTES as int) =~= self.program@.subrange(
            self.position as int,
            self.position + USIZE_BYTES,
        ));
        self.position = self.position + USIZE_BYTES;
        r
    }

    /// The program from `location` on.
    pub fn get_location(&self, location: usize) -> (bytes: &[u8])
        requires
            location <= self.program@.len(),
        ensures
            bytes@ == self.program@.subrange(location as int, self.program@.len() as int),
    {
        slice_subrange(self.program.as_slice(), location, self.program.len())
    }

    /// Reads `length` bytes.
    pub fn get_slice(&mut self, length: usize) -> (bytes: Vec<u8>)
        requires
            old(self).position + length <= old(self).program@.len(),
        ensures
            bytes@ == old(self).program@.subrange(
                old(self).position as int,
                old(self).position + length,
            ),
            final(self).position == old(self).position + length,
            final(self).program == old(self).program,
    {
        let mut bytes: Vec<u8> = Vec::new();
        let start: usize = self.position;
        let total: usize = self.program.len();
        let mut i: usize = 0;
        while i < length
            invariant
                i <= length,
                total == self.program@.len(),
                start + length <= total,
                self.position == start,
                self.program == old(self).program,
                bytes@ == self.program@.subrange(start as int, start + i),
            decreases length - i,
        {
            bytes.push(self.program[start + i]);
            assert(bytes@ =~= self.program@.subrange(start as int, start + i + 1));
            i = i + 1;
        }
        self.position = start + length;
        bytes
    }

    /// Reads an address. `expected_len` is the length of the value of an
    /// immediate address.
    pub fn get_address(&mut self, expected_len: Option<usize>) -> (address: Address)
        requires
            old(self).position <= old(self).program@.len(),
            readable_address(old(self).rest(), expected_len),
        ensures
            reads_as(
                old(self).rest(),
                expected_len,
                address,
                final(self).position - old(self).position,
            ),
            final(self).position <= final(self).program@.len(),
            final(self).program == old(self).program,
    {
        let rest = slice_subrange(self.program.as_slice(), self.position, self.program.len());
        let (address, len) = Address::get_address(rest, expected_len);
        self.position = self.position + len;
        address
    }
}

impl From<MemoryManager> for ProgramCursor {
    fn from(value: MemoryManager) -> (cursor: Self) {
        ProgramCursor::new(value.memory)
    }
}

impl vstd::std_specs::convert::FromSpecImpl<MemoryManager> for ProgramCursor {
    open spec fn obeys_from_spec() -> bool {
        true
    }

    open spec fn from_spec(value: MemoryManager) -> Self {
        ProgramCursor { position: 0, program: value.memory }
    }
}

} // verus!
