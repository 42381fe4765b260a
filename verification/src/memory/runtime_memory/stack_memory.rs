//! The stack of a running program: one frame for each scope that has been
//! created, of which the frames from the current one on are in use.
use vstd::prelude::*;
use vstd::slice::slice_subrange;
use crate::memory::memory_manager::{patched, zeros};

verus! {

/// The frames of a running program, and the frame that is current.
pub struct StackMemory {
    pub stacks: Vec<Vec<u8>>,
    pub current_stack: Option<usize>,
}

/// Where the byte at `location`, counted from the start of the frame
/// `stack`, lies: a location past the end of a frame lies in a frame after
/// it.
pub open spec fn stack_location(stacks: Seq<Vec<u8>>, stack: int, location: int) -> Option<
    (int, int),
>
    decreases stacks.len() - stack,
{
    if stack < 0 || stack >= stacks.len() || location < 0 {
        None
    } else if location >= stacks[stack]@.len() {
        stack_location(stacks, stack + 1, location - stacks[stack]@.len())
    } else {
        Some((stack, location))
    }
}

/// A vector of `size` zero bytes.
pub fn zeroed(size: usize) -> (bytes: Vec<u8>)
    ensures
        bytes@ == zeros(size as nat),
{
    let mut bytes: Vec<u8> = Vec::new();
    let mut i: usize = 0;
    while i < size
        invariant
            i <= size,
            bytes@ == zeros(i as nat),
        decreases size - i,
    {
        bytes.push(0);
        assert(bytes@ =~= zeros((i + 1) as nat));
        i = i + 1;
    }
    bytes
}

impl StackMemory {
    /// True where a frame can be created: none has been created that was
    /// not entered.
    pub open spec fn can_add(self) -> bool {
        self.current_stack matches Some(current) ==> current + 1 == self.stacks@.len()
    }

    /// True where a frame can be entered: no frame is current, or one has
    /// been created after the current one.
    pub open spec fn can_go_up(self) -> bool {
        self.current_stack matches Some(current) ==> current + 1 < self.stacks@.len()
    }

    /// True where the current frame can be left: it is the last one, and
    /// not the first.
    pub open spec fn can_go_down(self) -> bool {
        self.current_stack matches Some(current) && current + 1 == self.stacks@.len() && current
            >= 1
    }

    /// No frames.
    pub fn new() -> (stack: StackMemory)
        ensures
            stack.stacks@.len() == 0,
            stack.current_stack is None,
    {
        StackMemory { stacks: Vec::new(), current_stack: None }
    }

    /// Creates a frame of `size` zero bytes after the last one.
    pub fn add_stack(&mut self, size: usize)
        requires
            old(self).can_add(),
        ensures
            final(self).stacks@.len() == old(self).stacks@.len() + 1,
            final(self).stacks@.drop_last() == old(self).stacks@,
            final(self).stacks@.last()@ == zeros(size as nat),
            final(self).current_stack == old(self).current_stack,
    {
        self.stacks.push(zeroed(size));
        assert(self.stacks@.drop_last() =~= old(self).stacks@);
    }

    /// Enters the frame after the current one; the first frame where none
    /// is current.
    pub fn stack_up(&mut self)
        requires
            old(self).can_go_up(),
        ensures
            final(self).stacks == old(self).stacks,
            final(self).current_stack == Some(
                match old(self).current_stack {
                    Some(current) => (current + 1) as usize,
                    None => 0usize,
                },
            ),
    {
        match self.current_stack {
            None => {
                self.current_stack = Some(0);
            },
            Some(current) => {
                let depth: usize = self.stacks.len();
                self.current_stack = Some(current + 1);
            },
        }
    }

    /// Leaves the current frame, which is released, for the one before.
    pub fn stack_down(&mut self)
        requires
            old(self).can_go_down(),
        ensures
            final(self).stacks@ == old(self).stacks@.drop_last(),
            final(self).current_stack == Some((old(self).current_stack->0 - 1) as usize),
    {
        self.stacks.pop();
        match self.current_stack {
            Some(current) => {
                self.current_stack = Some(current - 1);
            },
            None => {},
        }
    }

    /// The bytes from `location` on, counted from the start of the current
    /// frame, to the end of the frame that they lie in.
    pub fn get_location(&self, location: usize) -> (bytes: &[u8])
        requires
            self.current_stack is Some,
            stack_location(self.stacks@, self.current_stack->0 as int, location as int) is Some,
        ensures
            ({
                let (stack, offset) = stack_location(
                    self.stacks@,
                    self.current_stack->0 as int,
                    location as int,
                )->0;
                0 <= stack < self.stacks@.len() && 0 <= offset < self.stacks@[stack]@.len()
                    && bytes@ == self.stacks@[stack]@.subrange(
                    offset,
                    self.stacks@[stack]@.len() as int,
                )
            }),
    {
        let mut offset: usize = location;
        let mut stack: usize = match self.current_stack {
            Some(current) => current,
            None => 0,
        };
        let depth: usize = self.stacks.len();
        while offset >= self.stacks[stack].len()
            invariant
                depth == self.stacks@.len(),
                stack < self.stacks@.len(),
                stack_location(self.stacks@, stack as int, offset as int) == stack_location(
                    self.stacks@,
                    self.current_stack->0 as int,
                    location as int,
                ),
                stack_location(self.stacks@, stack as int, offset as int) is Some,
            decreases self.stacks@.len() - stack,
        {
            offset = offset - self.stacks[stack].len();
            stack = stack + 1;
        }
        slice_subrange(self.stacks[stack].as_slice(), offset, self.stacks[stack].len())
    }

    /// The frame that the byte at `location`, counted from the start of the
    /// current frame, lies in, to be changed, and the place of the byte in
    /// that frame.
    pub fn get_location_mut(&mut self, location: usize) -> (place: (&mut Vec<u8>, usize))
        requires
            old(self).current_stack is Some,
            stack_location(
                old(self).stacks@,
                old(self).current_stack->0 as int,
                location as int,
            ) is Some,
        ensures
            ({
                let (stack, offset) = stack_location(
                    old(self).stacks@,
                    old(self).current_stack->0 as int,
                    location as int,
                )->0;
                &&& 0 <= stack < old(self).stacks@.len()
                &&& place.1 == offset
                &&& *place.0 == old(self).stacks@[stack]
                &&& final(self).stacks@ == old(self).stacks@.update(stack, *final(place.0))
                &&& final(self).current_stack == old(self).current_stack
            }),
    {
        let mut offset: usize = location;
        let mut stack: usize = match self.current_stack {
            Some(current) => current,
            None => 0,
        };
        let depth: usize = self.stacks.len();
        while offset >= self.stacks[stack].len()
            invariant
                self.stacks == old(self).stacks,
                self.current_stack == old(self).current_stack,
                depth == self.stacks@.len(),
                stack < self.stacks@.len(),
                stack_location(self.stacks@, stack as int, offset as int) == stack_location(
                    self.stacks@,
                    self.current_stack->0 as int,
                    location as int,
                ),
                stack_location(self.stacks@, stack as int, offset as int) is Some,
            decreases self.stacks@.len() - stack,
        {
            offset = offset - self.stacks[stack].len();
            stack = stack + 1;
        }
        (&mut self.stacks[stack], offset)
    }

    /// Writes `data` from `location` on, counted from the start of the
    /// current frame; all of it must lie in one frame.
    pub fn write_location(&mut self, location: usize, data: &[u8])
        requires
            old(self).current_stack is Some,
            stack_location(
                old(self).stacks@,
                old(self).current_stack->0 as int,
                location as int,
            ) matches Some((stack, offset)) && offset + data@.len() <= old(self).stacks@[stack]@.len(),
        ensures
            final(self).current_stack == old(self).current_stack,
            final(self).stacks@.len() == old(self).stacks@.len(),
            ({
                let (stack, offset) = stack_location(
                    old(self).stacks@,
                    old(self).current_stack->0 as int,
                    location as int,
                )->0;
                &&& forall|k: int|
                    0 <= k < old(self).stacks@.len() && k != stack ==> final(self).stacks@[k]
                        == old(self).stacks@[k]
                &&& final(self).stacks@[stack]@ == patched(
                    old(self).stacks@[stack]@,
                    offset,
                    data@,
                )
            }),
    {
        let mut offset: usize = location;
        let mut stack: usize = match self.current_stack {
            Some(current) => current,
            None => 0,
        };
        let depth: usize = self.stacks.len();
        while offset >= self.stacks[stack].len()
            invariant
                self.stacks == old(self).stacks,
                depth == self.stacks@.len(),
                stack < self.stacks@.len(),
                stack_location(self.stacks@, stack as int, offset as int) == stack_location(
                    self.stacks@,
                    self.current_stack->0 as int,
                    location as int,
                ),
                stack_location(self.stacks@, stack as int, offset as int) is Some,
            decreases self.stacks@.len() - stack,
        {
            offset = offset - self.stacks[stack].len();
            stack = stack + 1;
        }
        let mut frame = self.stacks.remove(stack);
        let ghost before = frame@;
        let size: usize = frame.len();
        let mut i: usize = 0;
        while i < data.len()
            invariant
                i <= data@.len(),
                size == before.len(),
                frame@.len() == size,
                offset + data@.len() <= size,
                frame@ == patched(
                    before,
                    offset as int,
                    data@.subrange(0, i as int),
                ),
            decreases data@.len() - i,
        {
            frame.set(offset + i, data[i]);
            assert(frame@ =~= patched(
                before,
                offset as int,
                data@.subrange(0, i + 1),
            ));
            i = i + 1;
        }
        assert(data@.subrange(0, data@.len() as int) =~= data@);
        self.stacks.insert(stack, frame);
    }
}

} // verus!
