//! The program buffer: bytes are appended, and reserved regions are patched
//! in place, so a position once handed out never moves.
use vstd::prelude::*;
use crate::util::{decimal_text, usize_to_decimal, USIZE_BYTES};

verus! {

/// `memory` with the bytes from `position` on replaced by `data`.
pub open spec fn patched(memory: Seq<u8>, position: int, data: Seq<u8>) -> Seq<u8> {
    Seq::new(
        memory.len(),
        |i: int|
            if position <= i < position + data.len() {
                data[i - position]
            } else {
                memory[i]
            },
    )
}

/// `count` zero bytes.
pub open spec fn zeros(count: nat) -> Seq<u8> {
    Seq::new(count, |i: int| 0u8)
}

/// The bytes of a program under construction.
pub struct MemoryManager {
    pub memory: Vec<u8>,
}

impl View for MemoryManager {
    type V = Seq<u8>;

    open spec fn view(&self) -> Seq<u8> {
        self.memory@
    }
}

impl MemoryManager {
    /// Creates an empty memory manager.
    pub fn new() -> (manager: Self)
        ensures
            manager@ == Seq::<u8>::empty(),
    {
        Self { memory: Vec::new() }
    }

    /// The position after the last byte written.
    pub fn position(&self) -> (position: usize)
        ensures
            position == self@.len(),
    {
        self.memory.len()
    }

    /// Same as [`MemoryManager::position`].
    pub fn get_position(&self) -> (position: usize)
        ensures
            position == self@.len(),
    {
        self.memory.len()
    }

    /// Adds a byte at the end. Returns its position.
    pub fn append_byte(&mut self, data: u8) -> (position: usize)
        ensures
            position == old(self)@.len(),
            final(self)@ == old(self)@.push(data),
    {
        let position = self.position();
        self.memory.push(data);
        position
    }

    /// Adds bytes at the end. Returns the position of the first.
    pub fn append(&mut self, data: &[u8]) -> (position: usize)
        ensures
            position == old(self)@.len(),
            final(self)@ == old(self)@ + data@,
    {
        let position = self.position();
        let mut i: usize = 0;
        while i < data.len()
            invariant
                i <= data@.len(),
                self@ == old(self)@ + data@.subrange(0, i as int),
            decreases data@.len() - i,
        {
            self.memory.push(data[i]);
            assert(self@ =~= old(self)@ + data@.subrange(0, i + 1));
            i = i + 1;
        }
        assert(data@.subrange(0, data@.len() as int) =~= data@);
        position
    }

    /// Overwrites the bytes from `position` on with `data`.
    pub fn overwrite(&mut self, position: usize, data: &[u8])
        requires
            position + data@.len() <= old(self)@.len(),
        ensures
            final(self)@ == patched(old(self)@, position as int, data@),
            final(self)@.len() == old(self)@.len(),
    {
        let length: usize = self.memory.len();
        let mut i: usize = 0;
        while i < data.len()
            invariant
                i <= data@.len(),
                self@.len() == length,
                position + data@.len() <= length,
                self@ == patched(old(self)@, position as int, data@.subrange(0, i as int)),
            decreases data@.len() - i,
        {
            self.memory.set(position + i, data[i]);
            assert(self@ =~= patched(old(self)@, position as int, data@.subrange(0, i + 1)));
            i = i + 1;
        }
        assert(data@.subrange(0, data@.len() as int) =~= data@);
    }

    /// Reserves `amount` zero bytes at the end, to be overwritten later.
    /// Returns the position of the first.
    pub fn reserve(&mut self, amount: usize) -> (position: usize)
        ensures
            position == old(self)@.len(),
            final(self)@ == old(self)@ + zeros(amount as nat),
    {
        let position = self.position();
        let mut i: usize = 0;
        while i < amount
            invariant
                i <= amount,
                self@ == old(self)@ + zeros(i as nat),
            decreases amount - i,
        {
            self.memory.push(0);
            assert(self@ =~= old(self)@ + zeros((i + 1) as nat));
            i = i + 1;
        }
        position
    }

    /// The manager of a given program.
    pub fn from_bytes(memory: Vec<u8>) -> (manager: Self)
        ensures
            manager@ == memory@,
    {
        MemoryManager { memory }
    }

    /// The program as plain bytes.
    pub fn into_bytes(self) -> (memory: Vec<u8>)
        ensures
            memory@ == self@,
    {
        self.memory
    }
}

/// The name of the file that a dump of the memory called `name` is written to.
pub fn dump_file_name(name: String) -> (file_name: String)
    ensures
        file_name@ == name@ + ".b"@,
{
    name.concat(".b")
}

/// The name of the file that holds the compiled program called `name`: it
/// carries the width of a machine word in bits, since a compiled program is
/// laid out for one width.
pub fn compiled_file_name(name: String) -> (file_name: String)
    ensures
        file_name@ == name@ + " - "@ + decimal_text(USIZE_BYTES * 8) + ".cwhy"@,
{
    let bits: usize = USIZE_BYTES * 8;
    let mut file_name = name.concat(" - ");
    file_name.append(usize_to_decimal(bits).as_str());
    file_name.append(".cwhy");
    file_name
}

impl From<Vec<u8>> for MemoryManager {
    fn from(value: Vec<u8>) -> (manager: Self) {
        MemoryManager { memory: value }
    }
}

impl vstd::std_specs::convert::FromSpecImpl<Vec<u8>> for MemoryManager {
    open spec fn obeys_from_spec() -> bool {
        true
    }

    open spec fn from_spec(value: Vec<u8>) -> Self {
        MemoryManager { memory: value }
    }
}

impl From<MemoryManager> for Vec<u8> {
    fn from(value: MemoryManager) -> (memory: Self) {
        value.memory
    }
}

impl vstd::std_specs::convert::FromSpecImpl<MemoryManager> for Vec<u8> {
    open spec fn obeys_from_spec() -> bool {
        true
    }

    open spec fn from_spec(value: MemoryManager) -> Self {
        value.memory
    }
}

impl Default for MemoryManager {
    fn default() -> (manager: Self)
        ensures
            manager@ == Seq::<u8>::empty(),
    {
        MemoryManager::new()
    }
}

} // verus!
