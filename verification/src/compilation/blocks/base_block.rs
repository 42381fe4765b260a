//! The block that holds a whole program.
use vstd::prelude::*;
use crate::compilation::blocks::{
    not_open_error, not_open_message, BlockHandler, Program, StackSizes,
};
use crate::compilation::instructions::{
    lemma_patched_bytes, StackCreateInstruction, StackDownInstruction, StackUpInstruction,
};
use crate::compilation::reference_manager::{lemma_well_formed_grows, ReferenceStack};
use crate::lexical_parsing::symbols::Symbol;
use crate::memory::memory_manager::{patched, MemoryManager};
use crate::util::{usize_at, usize_bytes, USIZE_BYTES};

verus! {

/// The block that holds a whole program: it creates the frame of the
/// program and enters it, and leaves it at the end.
pub struct BaseBlock {
    pub stack_create_instruction: Option<StackCreateInstruction>,
}

impl BaseBlock {
    /// True where the instruction that waits for the size of the frame lies
    /// inside a program of `length` bytes.
    pub open spec fn well_formed(self, length: nat) -> bool {
        self.stack_create_instruction matches Some(instruction) ==> instruction.within(length)
    }

    /// True where `post` and `after` are what entering the block comes to:
    /// the frame is created with a size that is still open, and entered; a
    /// frame counter is opened. The names are left as they are.
    pub open spec fn entered(
        pre: Self,
        post: Self,
        before: Program,
        after: Program,
        result: Result<(), String>,
    ) -> bool {
        &&& result is Ok
        &&& after.memory == before.memory + StackCreateInstruction::bytes(0)
            + StackUpInstruction::bytes()
        &&& after.stack_sizes == before.stack_sizes.push(0)
        &&& after.references == before.references
        &&& post.stack_create_instruction == Some(
            StackCreateInstruction { address: before.memory.len() as usize },
        )
    }

    /// True where `post` and `after` are what leaving the block comes to:
    /// the frame is left, and its size, which is that of the innermost
    /// frame counter, is written where the frame is created; the frame
    /// counter is closed. The names are left as they are. Fails where the
    /// block or a frame counter is not open.
    pub open spec fn exited(
        pre: Self,
        post: Self,
        before: Program,
        after: Program,
        result: Result<(), String>,
    ) -> bool {
        if pre.stack_create_instruction is None || before.stack_sizes.len() == 0 {
            result is Err && result->Err_0@ == not_open_message() && after == before && post == pre
        } else {
            &&& result is Ok
            &&& after.memory == patched(
                before.memory + StackDownInstruction::bytes(),
                pre.stack_create_instruction->0.size_position(),
                usize_bytes(before.stack_sizes.last()),
            )
            &&& usize_at(after.memory, pre.stack_create_instruction->0.size_position())
                == before.stack_sizes.last()
            &&& after.stack_sizes == before.stack_sizes.drop_last()
            &&& after.references == before.references
            &&& post.stack_create_instruction is None
        }
    }

    /// A base block that has not been entered.
    pub fn new_block() -> (block: BlockHandler)
        ensures
            block == BlockHandler::Base(BaseBlock { stack_create_instruction: None }),
    {
        BlockHandler::Base(BaseBlock { stack_create_instruction: None })
    }

    /// Enters the block.
    pub fn on_entry(
        &mut self,
        program_memory: &mut MemoryManager,
        reference_stack: &mut ReferenceStack,
        stack_sizes: &mut StackSizes,
        _symbol_line: &[Symbol],
    ) -> (result: Result<(), String>)
        ensures
            BaseBlock::entered(
                *old(self),
                *final(self),
                Program {
                    memory: old(program_memory)@,
                    stack_sizes: old(stack_sizes)@,
                    references: *old(reference_stack),
                },
                Program {
                    memory: final(program_memory)@,
                    stack_sizes: final(stack_sizes)@,
                    references: *final(reference_stack),
                },
                result,
            ),
            final(self).well_formed(final(program_memory)@.len()),
            old(reference_stack).well_formed(old(program_memory)@.len()) && result is Ok
                ==> final(reference_stack).well_formed(final(program_memory)@.len()),
            *final(reference_stack) == *old(reference_stack),
    {
        self.stack_create_instruction = Some(StackCreateInstruction::new_alloc(program_memory, 0));
        StackUpInstruction::new_alloc(program_memory);
        stack_sizes.add_stack();
        proof {
            if reference_stack.well_formed(old(program_memory)@.len()) {
                lemma_well_formed_grows(
                    *reference_stack,
                    old(program_memory)@.len(),
                    program_memory@.len(),
                );
            }
        }
        Ok(())
    }

    /// Leaves the block.
    pub fn on_forced_exit(
        &mut self,
        program_memory: &mut MemoryManager,
        reference_stack: &mut ReferenceStack,
        stack_sizes: &mut StackSizes,
    ) -> (result: Result<(), String>)
        requires
            old(self).well_formed(old(program_memory)@.len()),
        ensures
            BaseBlock::exited(
                *old(self),
                *final(self),
                Program {
                    memory: old(program_memory)@,
                    stack_sizes: old(stack_sizes)@,
                    references: *old(reference_stack),
                },
                Program {
                    memory: final(program_memory)@,
                    stack_sizes: final(stack_sizes)@,
                    references: *final(reference_stack),
                },
                result,
            ),
            old(program_memory)@.len() <= final(program_memory)@.len(),
            result is Ok ==> usize_at(
                final(program_memory)@,
                old(self).stack_create_instruction->0.size_position(),
            ) == old(stack_sizes)@.last() && final(self).stack_create_instruction is None,
            final(self).well_formed(final(program_memory)@.len()),
            old(reference_stack).well_formed(old(program_memory)@.len()) && result is Ok
                ==> final(reference_stack).well_formed(final(program_memory)@.len()),
            *final(reference_stack) == *old(reference_stack),
    {
        if self.stack_create_instruction.is_none() || stack_sizes.depth() == 0 {
            return Err(not_open_error());
        }
        StackDownInstruction::new_alloc(program_memory);
        let instruction = self.stack_create_instruction.take().unwrap();
        instruction.set_stack_size(stack_sizes.get_stack_size(), program_memory);
        stack_sizes.remove_stack();
        proof {
            if reference_stack.well_formed(old(program_memory)@.len()) {
                lemma_well_formed_grows(
                    *reference_stack,
                    old(program_memory)@.len(),
                    program_memory@.len(),
                );
            }
        }
        Ok(())
    }
}

/// Leaving the base block adds the instruction that leaves the frame,
/// writes the size of the frame where the frame is created, and changes
/// nothing else of what the program held.
pub proof fn lemma_exit_changes_the_size_alone(
    pre: BaseBlock,
    post: BaseBlock,
    before: Program,
    after: Program,
    position: int,
)
    requires
        BaseBlock::exited(pre, post, before, after, Ok(())),
        0 <= position < before.memory.len(),
        !(pre.stack_create_instruction->0.size_position() <= position
            < pre.stack_create_instruction->0.size_position() + USIZE_BYTES),
    ensures
        after.memory.len() == before.memory.len() + StackDownInstruction::bytes().len(),
        after.memory[position] == before.memory[position],
        pre.stack_create_instruction->0.within(before.memory.len())
            ==> after.memory.subrange(before.memory.len() as int, after.memory.len() as int)
            == StackDownInstruction::bytes(),
{
    let left = before.memory + StackDownInstruction::bytes();
    let size = before.stack_sizes.last();
    let place = pre.stack_create_instruction->0.size_position();
    lemma_patched_bytes(left, place, size, position);
    if pre.stack_create_instruction->0.within(before.memory.len()) {
        let added = after.memory.subrange(before.memory.len() as int, after.memory.len() as int);
        assert forall|j: int| 0 <= j < added.len() implies #[trigger] added[j]
            == StackDownInstruction::bytes()[j] by {
            lemma_patched_bytes(left, place, size, before.memory.len() + j);
            assert(left[before.memory.len() + j] == StackDownInstruction::bytes()[j]);
        }
        assert(added =~= StackDownInstruction::bytes());
    }
}

} // verus!
