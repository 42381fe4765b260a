//! The heap of a running program.
use vstd::prelude::*;
use vstd::slice::slice_subrange;
use crate::memory::memory_manager::zeros;
use crate::memory::runtime_memory::stack_memory::zeroed;

verus! {

/// The heap: its bytes, and one bit for each byte that says whether the
/// byte is in use.
pub struct HeapMemory {
    pub data: Vec<u8>,
    pub usage: Vec<u8>,
    pub capacity: usize,
}

/// The capacity that a heap asked for with `capacity` bytes gets.
pub open spec fn rounded_capacity(capacity: usize) -> int {
    capacity + capacity % 8
}

/// True where the bit `bit` of `byte` is set.
pub open spec fn bit_set(byte: u8, bit: u8) -> bool {
    byte & (1u8 << bit) != 0
}

/// True where the byte `index` of the heap is in use.
pub open spec fn in_use(usage: Seq<u8>, index: int) -> bool {
    bit_set(usage[index / 8], (index % 8) as u8)
}

/// The place for `size` bytes that a search from the byte `index` on
/// finds, where `free` bytes right before `index` are not in use: the
/// search needs the bytes and one more on each side, and takes the first
/// such run.
pub open spec fn free_from(usage: Seq<u8>, size: usize, index: int, free: int) -> Option<int>
    decreases usage.len() * 8 - index,
{
    if index < 0 || index >= usage.len() * 8 {
        None
    } else if in_use(usage, index) {
        free_from(usage, size, index + 1, 0)
    } else if free + 1 == size + 2 {
        Some(index - size)
    } else {
        free_from(usage, size, index + 1, free + 1)
    }
}

/// The number of bytes in use from `index` on without a gap; none where
/// they reach the end of the heap.
pub open spec fn used_from(usage: Seq<u8>, index: int) -> Option<int>
    decreases usage.len() * 8 - index,
{
    if index < 0 || index >= usage.len() * 8 {
        None
    } else if !in_use(usage, index) {
        Some(0)
    } else {
        match used_from(usage, index + 1) {
            Some(count) => Some(count + 1),
            None => None,
        }
    }
}

/// A bit that is set, is set; the other bits stay as they are.
pub proof fn lemma_set_bit(byte: u8, bit: u8, other: u8)
    requires
        bit < 8,
        other < 8,
    ensures
        bit_set(byte | (1u8 << bit), other) == (other == bit || bit_set(byte, other)),
{
    assert(((byte | (1u8 << bit)) & (1u8 << other) != 0) == (other == bit || (byte & (1u8
        << other) != 0))) by (bit_vector)
        requires
            bit < 8,
            other < 8,
    ;
}

/// A bit that is cleared, is clear; the other bits stay as they are.
pub proof fn lemma_clear_bit(byte: u8, bit: u8, other: u8)
    requires
        bit < 8,
        other < 8,
    ensures
        bit_set(byte & !(1u8 << bit), other) == (other != bit && bit_set(byte, other)),
{
    assert(((byte & !(1u8 << bit)) & (1u8 << other) != 0) == (other != bit && (byte & (1u8
        << other) != 0))) by (bit_vector)
        requires
            bit < 8,
            other < 8,
    ;
}

/// No bit of zero is set.
pub proof fn lemma_zero_bits(bit: u8)
    requires
        bit < 8,
    ensures
        !bit_set(0u8, bit),
{
    assert((0u8 & (1u8 << bit)) == 0) by (bit_vector)
        requires
            bit < 8,
    ;
}

impl HeapMemory {
    /// True where the heap has as many bytes as its capacity says, and a
    /// bit for each group of eight.
    pub open spec fn well_formed(self) -> bool {
        self.data@.len() == self.capacity && self.usage@.len() == self.capacity / 8
    }

    /// The number of bytes whose use is recorded.
    pub open spec fn recorded(self) -> int {
        (self.usage@.len() * 8) as int
    }

    /// A heap of which no byte is in use.
    pub fn new(capacity: usize) -> (heap: HeapMemory)
        requires
            rounded_capacity(capacity) <= usize::MAX,
        ensures
            heap.capacity == rounded_capacity(capacity),
            heap.well_formed(),
            heap.data@ == zeros(heap.capacity as nat),
            forall|index: int| 0 <= index < heap.recorded() ==> !in_use(heap.usage@, index),
    {
        let capacity: usize = capacity + (capacity % 8);
        let heap = HeapMemory { data: zeroed(capacity), usage: zeroed(capacity / 8), capacity };
        proof {
            assert forall|index: int| 0 <= index < heap.recorded() implies !in_use(
                heap.usage@,
                index,
            ) by {
                lemma_zero_bits((index % 8) as u8);
            }
        }
        heap
    }

    fn is_used(&self, index: usize) -> (used: bool)
        requires
            index < self.recorded(),
        ensures
            used == in_use(self.usage@, index as int),
    {
        let bit: u8 = (index % 8) as u8;
        self.usage[index / 8] & (1u8 << bit) != 0
    }

    /// The place for `size` bytes: the byte after the first of the first
    /// `size + 2` bytes in a row that are not in use, so that a byte stays
    /// free on each side. None where there is no such run.
    pub fn find_free(&self, size: usize) -> (place: Option<usize>)
        requires
            self.well_formed(),
        ensures
            match free_from(self.usage@, size, 0, 0) {
                Some(found) => place == Some(found as usize) && 1 <= found && found + size
                    < self.recorded(),
                None => place is None,
            },
    {
        let recorded: usize = self.usage.len() * 8;
        let mut free: usize = 0;
        let mut index: usize = 0;
        while index < recorded
            invariant
                recorded == self.usage@.len() * 8,
                index <= recorded,
                free <= index,
                free <= size + 1,
                free_from(self.usage@, size, 0, 0) == free_from(
                    self.usage@,
                    size,
                    index as int,
                    free as int,
                ),
            decreases recorded - index,
        {
            if !self.is_used(index) {
                free = free + 1;
                if free >= 2 && free - 2 == size {
                    return Some(index - size);
                }
            } else {
                free = 0;
            }
            index = index + 1;
        }
        None
    }

    /// Takes `size` bytes into use at the place that `find_free` gives.
    /// Returns the place.
    pub fn allocate(&mut self, size: usize) -> (address: usize)
        requires
            old(self).well_formed(),
            free_from(old(self).usage@, size, 0, 0) is Some,
        ensures
            address == free_from(old(self).usage@, size, 0, 0)->0,
            final(self).well_formed(),
            final(self).capacity == old(self).capacity,
            final(self).data == old(self).data,
            forall|index: int|
                0 <= index < old(self).recorded() ==> in_use(final(self).usage@, index) == ((address
                    <= index < address + size) || in_use(old(self).usage@, index)),
    {
        let address: usize = match self.find_free(size) {
            Some(address) => address,
            None => 0,
        };
        let recorded: usize = self.usage.len() * 8;
        let mut a: usize = address;
        while a < address + size
            invariant
                address <= a <= address + size,
                address + size < recorded,
                recorded == self.usage@.len() * 8,
                self.usage@.len() == old(self).usage@.len(),
                self.capacity == old(self).capacity,
                self.data == old(self).data,
                forall|index: int|
                    0 <= index < recorded ==> in_use(self.usage@, index) == ((address <= index < a)
                        || in_use(old(self).usage@, index)),
            decreases address + size - a,
        {
            let byte: usize = a / 8;
            let bit: u8 = (a % 8) as u8;
            let ghost before = self.usage@;
            let updated: u8 = self.usage[byte] | (1u8 << bit);
            self.usage.set(byte, updated);
            proof {
                assert forall|index: int| 0 <= index < recorded implies in_use(self.usage@, index)
                    == ((address <= index < a + 1) || in_use(old(self).usage@, index)) by {
                    assert(in_use(before, index) == ((address <= index < a) || in_use(
                        old(self).usage@,
                        index,
                    )));
                    if index / 8 == byte {
                        lemma_set_bit(before[byte as int], bit, (index % 8) as u8);
                        assert(self.usage@[index / 8] == updated);
                        assert(((index % 8) as u8 == bit) == (index == a));
                    } else {
                        assert(self.usage@[index / 8] == before[index / 8]);
                    }
                }
            }
            a = a + 1;
        }
        address
    }

    /// The number of bytes in use from `address` on without a gap: what
    /// `free` would release. None where they reach the end of the heap, or
    /// `address` lies outside it.
    pub fn used_length(&self, address: usize) -> (count: Option<usize>)
        requires
            self.well_formed(),
        ensures
            count matches Some(length) ==> used_from(self.usage@, address as int) == Some(
                length as int,
            ),
            count is None ==> used_from(self.usage@, address as int) is None,
    {
        let recorded: usize = self.usage.len() * 8;
        let mut i: usize = address;
        while i < recorded
            invariant
                recorded == self.usage@.len() * 8,
                address <= i,
                used_from(self.usage@, address as int) == (match used_from(self.usage@, i as int) {
                    Some(more) => Some(more + (i - address)),
                    None => None,
                }),
            decreases recorded - i,
        {
            let byte: usize = i / 8;
            let bit: u8 = (i % 8) as u8;
            if self.usage[byte] & (1u8 << bit) == 0 {
                return Some(i - address);
            }
            i = i + 1;
        }
        None
    }

    /// Releases the bytes in use from `address` on, up to the first byte
    /// that is not in use.
    pub fn free(&mut self, address: usize)
        requires
            old(self).well_formed(),
            used_from(old(self).usage@, address as int) is Some,
        ensures
            final(self).well_formed(),
            final(self).capacity == old(self).capacity,
            final(self).data == old(self).data,
            forall|index: int|
                0 <= index < old(self).recorded() ==> in_use(final(self).usage@, index) == (!(
                address <= index < address + used_from(old(self).usage@, address as int)->0)
                    && in_use(old(self).usage@, index)),
    {
        let recorded: usize = self.usage.len() * 8;
        let ghost count = used_from(self.usage@, address as int)->0;
        let mut i: usize = 0;
        proof {
            lemma_used_from_bound(self.usage@, address as int);
        }
        loop
            invariant
                recorded == self.usage@.len() * 8,
                self.usage@.len() == old(self).usage@.len(),
                self.capacity == old(self).capacity,
                self.data == old(self).data,
                0 <= i <= count,
                address + count < recorded,
                used_from(old(self).usage@, address + i) == Some(count - i),
                forall|index: int|
                    0 <= index < recorded ==> in_use(self.usage@, index) == (!(address <= index
                        < address + i) && in_use(old(self).usage@, index)),
            ensures
                i == count,
            decreases count - i,
        {
            let byte: usize = (address + i) / 8;
            let bit: u8 = ((address + i) % 8) as u8;
            assert(in_use(self.usage@, address + i) == in_use(old(self).usage@, address + i));
            if self.usage[byte] & (1u8 << bit) == 0 {
                break ;
            }
            proof {
                lemma_used_from_bound(old(self).usage@, address + i + 1);
            }
            let ghost before = self.usage@;
            let updated: u8 = self.usage[byte] & !(1u8 << bit);
            self.usage.set(byte, updated);
            proof {
                assert forall|index: int| 0 <= index < recorded implies in_use(self.usage@, index)
                    == (!(address <= index < address + i + 1) && in_use(
                    old(self).usage@,
                    index,
                )) by {
                    assert(in_use(before, index) == (!(address <= index < address + i) && in_use(
                        old(self).usage@,
                        index,
                    )));
                    if index / 8 == byte {
                        lemma_clear_bit(before[byte as int], bit, (index % 8) as u8);
                        assert(self.usage@[index / 8] == updated);
                        assert(((index % 8) as u8 == bit) == (index == address + i));
                    } else {
                        assert(self.usage@[index / 8] == before[index / 8]);
                    }
                }
            }
            i = i + 1;
        }
    }

    /// The heap from `location` on.
    pub fn get_location(&self, location: usize) -> (bytes: &[u8])
        requires
            location <= self.data@.len(),
        ensures
            bytes@ == self.data@.subrange(location as int, self.data@.len() as int),
    {
        slice_subrange(self.data.as_slice(), location, self.data.len())
    }
}

/// Where bytes in use are counted from a place, the count fits the heap.
pub proof fn lemma_used_from_bound(usage: Seq<u8>, index: int)
    requires
        used_from(usage, index) is Some,
    ensures
        0 <= used_from(usage, index)->0,
        0 <= index,
        index + used_from(usage, index)->0 < usage.len() * 8,
    decreases usage.len() * 8 - index,
{
    if 0 <= index < usage.len() * 8 && in_use(usage, index) {
        lemma_used_from_bound(usage, index + 1);
    }
}

} // verus!
