//! The memory of a running program: the program itself, the stack and the
//! heap.
use vstd::prelude::*;

pub mod heap_memory;
pub mod program_cursor;
pub mod stack_memory;

use heap_memory::HeapMemory;
use program_cursor::ProgramCursor;
use stack_memory::StackMemory;

verus! {

/// The memory of a running program.
pub struct RuntimeMemory {
    pub program: ProgramCursor,
    pub stack: StackMemory,
    pub heap: HeapMemory,
}

impl RuntimeMemory {
    pub fn new(program: ProgramCursor, stack: StackMemory, heap: HeapMemory) -> (memory: Self)
        ensures
            memory.program == program,
            memory.stack == stack,
            memory.heap == heap,
    {
        RuntimeMemory { program, stack, heap }
    }

    pub fn program(&self) -> (program: &ProgramCursor)
        ensures
            *program == self.program,
    {
        &self.program
    }

    pub fn program_mut(&mut self) -> (program: &mut ProgramCursor)
        ensures
            *program == old(self).program,
            final(self).program == *final(program),
            final(self).stack == old(self).stack,
            final(self).heap == old(self).heap,
    {
        &mut self.program
    }

    pub fn stack(&self) -> (stack: &StackMemory)
        ensures
            *stack == self.stack,
    {
        &self.stack
    }

    pub fn stack_mut(&mut self) -> (stack: &mut StackMemory)
        ensures
            *stack == old(self).stack,
            final(self).stack == *final(stack),
            final(self).program == old(self).program,
            final(self).heap == old(self).heap,
    {
        &mut self.stack
    }

    pub fn heap(&self) -> (heap: &HeapMemory)
        ensures
            *heap == self.heap,
    {
        &self.heap
    }

    pub fn heap_mut(&mut self) -> (heap: &mut HeapMemory)
        ensures
            *heap == old(self).heap,
            final(self).heap == *final(heap),
            final(self).program == old(self).program,
            final(self).stack == old(self).stack,
    {
        &mut self.heap
    }
}

} // verus!
