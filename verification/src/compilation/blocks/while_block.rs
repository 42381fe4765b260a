//! Loops that run while a condition holds.
use vstd::prelude::*;
use crate::compilation::blocks::{
    condition_jump, emit_condition, not_open_error, not_open_message, BlockHandler, Program,
    StackSizes,
};
use crate::compilation::instructions::{
    all_patched, jumps_in_order, lemma_all_patched_bytes, lemma_all_patched_frame,
    lemma_patched_bytes, lemma_patched_word, set_all_destinations, JumpIfNotInstruction,
    JumpInstruction,
};
use crate::compilation::reference_manager::{
    lemma_well_formed_grows, ReferenceStack,
};
use crate::lexical_parsing::symbols::Symbol;
use crate::memory::memory_manager::{patched, MemoryManager};
use crate::util::{usize_bytes, USIZE_BYTES};

verus! {

/// A loop. While it is open, it holds the position at which its condition
/// is checked, the jump that leaves the loop where the condition is false,
/// and the jumps of `break` and `continue`, which wait for a destination.
pub struct WhileBlock {
    pub jump_end_instruction: Option<JumpIfNotInstruction>,
    /// The jumps of `break`.
    pub jump_end_instructions: Vec<JumpInstruction>,
    /// The jumps of `continue`.
    pub jump_start_instructions: Vec<JumpInstruction>,
    pub start_position: Option<usize>,
}

impl WhileBlock {
    /// True where the jumps that wait lie inside a program of `length`
    /// bytes without overlap, after the jump that leaves the loop.
    pub open spec fn well_formed(self, length: nat) -> bool {
        &&& jumps_in_order(self.jump_end_instructions@, length)
        &&& jumps_in_order(self.jump_start_instructions@, length)
        &&& forall|i: int, j: int|
            0 <= i < self.jump_end_instructions@.len() && 0 <= j
                < self.jump_start_instructions@.len() ==> (
            #[trigger] self.jump_end_instructions@[i]).end() <= (
            #[trigger] self.jump_start_instructions@[j]).address
                || self.jump_start_instructions@[j].end() <= self.jump_end_instructions@[i].address
        &&& self.jump_end_instruction matches Some(jump) ==> {
            &&& jump.within(length)
            &&& forall|i: int|
                0 <= i < self.jump_end_instructions@.len() ==> jump.end() <= (
                #[trigger] self.jump_end_instructions@[i]).address
            &&& forall|i: int|
                0 <= i < self.jump_start_instructions@.len() ==> jump.end() <= (
                #[trigger] self.jump_start_instructions@[i]).address
        }
    }

    /// True where the block has not been entered.
    pub open spec fn is_new(self) -> bool {
        &&& self.jump_end_instruction is None
        &&& self.start_position is None
        &&& self.jump_end_instructions@.len() == 0
        &&& self.jump_start_instructions@.len() == 0
    }

    /// The program after the loop was closed: a jump back to the check of
    /// the condition is added; the jump that leaves the loop and the jumps
    /// of `break` land after it, the jumps of `continue` at the check.
    pub open spec fn closed(self, memory: Seq<u8>) -> Seq<u8> {
        let start = self.start_position->0;
        let looped = memory + JumpInstruction::bytes(start);
        let end = looped.len() as usize;
        patched(
            all_patched(
                self.jump_start_instructions@,
                self.jump_start_instructions@.len(),
                all_patched(
                    self.jump_end_instructions@,
                    self.jump_end_instructions@.len(),
                    looped,
                    end,
                ),
                start,
            ),
            self.jump_end_instruction->0.destination_address as int,
            usize_bytes(end),
        )
    }

    /// True where the program holds the destinations of the jumps that
    /// waited: the end of the loop for the jump that leaves the loop and for
    /// the jumps of `break`, all of which go forward, and the check of the
    /// condition for the jumps of `continue`.
    pub open spec fn lands_at(self, memory: Seq<u8>, end: usize) -> bool {
        &&& forall|i: int|
            0 <= i < self.jump_end_instructions@.len() ==> (
            #[trigger] self.jump_end_instructions@[i]).destination_in(memory) == end
                && self.jump_end_instructions@[i].end() <= end
        &&& forall|i: int|
            0 <= i < self.jump_start_instructions@.len() ==> (
            #[trigger] self.jump_start_instructions@[i]).destination_in(memory)
                == self.start_position->0
        &&& self.jump_end_instruction->0.destination_in(memory) == end
        &&& self.jump_end_instruction->0.end() <= end
    }

    /// True where `post` and `after` are what entering the loop comes to:
    /// the position of the check is kept, the condition is checked by a jump
    /// that leaves the loop. The names are left as they are.
    pub open spec fn entered(
        pre: Self,
        post: Self,
        line: Seq<Symbol>,
        before: Program,
        after: Program,
        result: Result<(), String>,
    ) -> bool {
        match condition_jump(line, before.references, before.output()) {
            Err(message) => result is Err && result->Err_0@ == message,
            Ok((jump, output)) => {
                &&& result is Ok
                &&& after.output() == output
                &&& after.references == before.references
                &&& post.start_position == Some(before.memory.len() as usize)
                &&& post.jump_end_instruction == Some(jump)
                &&& post.jump_end_instructions@ == pre.jump_end_instructions@
                &&& post.jump_start_instructions@ == pre.jump_start_instructions@
            },
        }
    }

    /// True where `post` and `after` are what closing the loop comes to.
    /// The names are left as they are. Fails where the loop has not been
    /// entered.
    pub open spec fn force_exited(
        pre: Self,
        post: Self,
        before: Program,
        after: Program,
        result: Result<(), String>,
    ) -> bool {
        if pre.jump_end_instruction is None || pre.start_position is None {
            result is Err && result->Err_0@ == not_open_message() && after == before && post == pre
        } else {
            &&& result is Ok
            &&& after.memory == pre.closed(before.memory)
            &&& after.memory.len() == before.memory.len() + 1 + USIZE_BYTES
            &&& pre.lands_at(after.memory, after.memory.len() as usize)
            &&& after.stack_sizes == before.stack_sizes
            &&& after.references == before.references
            &&& post.is_new()
        }
    }

    /// A loop that has not been entered.
    pub fn new_block() -> (block: BlockHandler)
        ensures
            block matches BlockHandler::While(inner) && inner.is_new(),
    {
        BlockHandler::While(
            WhileBlock {
                jump_end_instruction: None,
                jump_end_instructions: Vec::new(),
                jump_start_instructions: Vec::new(),
                start_position: None,
            },
        )
    }

    /// Enters the loop with the line that opens it.
    pub fn on_entry(
        &mut self,
        program_memory: &mut MemoryManager,
        reference_stack: &mut ReferenceStack,
        stack_sizes: &mut StackSizes,
        symbol_line: &[Symbol],
    ) -> (result: Result<(), String>)
        requires
            symbol_line@.len() >= 1,
            old(reference_stack).well_formed(old(program_memory)@.len()),
            old(self).is_new(),
        ensures
            WhileBlock::entered(
                *old(self),
                *final(self),
                symbol_line@,
                Program {
                    memory: old(program_memory)@,
                    stack_sizes: old(stack_sizes)@,
                    references: *old(reference_stack),
                },
                Program {
                    memory: final(program_memory)@,
                    stack_sizes: final(stack_sizes)@,
                    references: *final(reference_stack),
                },
                result,
            ),
            old(program_memory)@.len() <= final(program_memory)@.len(),
            final(stack_sizes)@.len() == old(stack_sizes)@.len(),
            result is Ok ==> final(self).well_formed(final(program_memory)@.len()),
            old(reference_stack).well_formed(old(program_memory)@.len()) && result is Ok
                ==> final(reference_stack).well_formed(final(program_memory)@.len()),
            *final(reference_stack) == *old(reference_stack),
    {
        self.start_position = Some(program_memory.get_position());
        let jump = match emit_condition(symbol_line, program_memory, reference_stack, stack_sizes) {
            Ok(jump) => jump,
            Err(message) => {
                return Err(message);
            },
        };
        self.jump_end_instruction = Some(jump);
        proof {
            lemma_well_formed_grows(
                *reference_stack,
                old(program_memory)@.len(),
                program_memory@.len(),
            );
        }
        Ok(())
    }

    /// Handles the line that follows the loop: the loop is closed, whatever
    /// the line.
    pub fn on_exit(
        &mut self,
        program_memory: &mut MemoryManager,
        reference_stack: &mut ReferenceStack,
        stack_sizes: &mut StackSizes,
        _symbol_line: &[Symbol],
    ) -> (result: Result<bool, String>)
        requires
            old(self).well_formed(old(program_memory)@.len()),
        ensures
            WhileBlock::force_exited(
                *old(self),
                *final(self),
                Program {
                    memory: old(program_memory)@,
                    stack_sizes: old(stack_sizes)@,
                    references: *old(reference_stack),
                },
                Program {
                    memory: final(program_memory)@,
                    stack_sizes: final(stack_sizes)@,
                    references: *final(reference_stack),
                },
                match result {
                    Ok(_) => Ok(()),
                    Err(message) => Err(message),
                },
            ),
            result is Ok ==> result->Ok_0,
            old(program_memory)@.len() <= final(program_memory)@.len(),
            final(self).well_formed(final(program_memory)@.len()),
            old(reference_stack).well_formed(old(program_memory)@.len()) && result is Ok
                ==> final(reference_stack).well_formed(final(program_memory)@.len()),
            *final(reference_stack) == *old(reference_stack),
    {
        match self.on_forced_exit(program_memory, reference_stack, stack_sizes) {
            Ok(_) => Ok(true),
            Err(message) => Err(message),
        }
    }

    /// Closes the loop.
    pub fn on_forced_exit(
        &mut self,
        program_memory: &mut MemoryManager,
        reference_stack: &mut ReferenceStack,
        _stack_sizes: &mut StackSizes,
    ) -> (result: Result<(), String>)
        requires
            old(self).well_formed(old(program_memory)@.len()),
        ensures
            WhileBlock::force_exited(
                *old(self),
                *final(self),
                Program {
                    memory: old(program_memory)@,
                    stack_sizes: old(_stack_sizes)@,
                    references: *old(reference_stack),
                },
                Program {
                    memory: final(program_memory)@,
                    stack_sizes: final(_stack_sizes)@,
                    references: *final(reference_stack),
                },
                result,
            ),
            old(program_memory)@.len() <= final(program_memory)@.len(),
            result is Ok ==> old(self).lands_at(
                final(program_memory)@,
                final(program_memory)@.len() as usize,
            ),
            final(self).well_formed(final(program_memory)@.len()),
            old(reference_stack).well_formed(old(program_memory)@.len()) && result is Ok
                ==> final(reference_stack).well_formed(final(program_memory)@.len()),
            *final(reference_stack) == *old(reference_stack),
    {
        let start: usize = match self.start_position {
            Some(start) => start,
            None => {
                return Err(not_open_error());
            },
        };
        if self.jump_end_instruction.is_none() {
            return Err(not_open_error());
        }
        let ghost breaks = self.jump_end_instructions@;
        let ghost continues = self.jump_start_instructions@;
        let ghost leave = self.jump_end_instruction->0;
        JumpInstruction::new_alloc(program_memory, start);
        let end: usize = program_memory.get_position();
        let ghost looped = program_memory@;
        set_all_destinations(&self.jump_end_instructions, end, program_memory);
        let ghost broken = program_memory@;
        set_all_destinations(&self.jump_start_instructions, start, program_memory);
        let ghost continued = program_memory@;
        match &self.jump_end_instruction {
            Some(instruction) => {
                instruction.set_destination(end, program_memory);
            },
            None => {},
        }
        proof {
            assert forall|i: int| 0 <= i < breaks.len() implies (#[trigger] breaks[i]).destination_in(
                program_memory@,
            ) == end by {
                lemma_all_patched_frame(
                    continues,
                    continues.len(),
                    broken,
                    start,
                    breaks[i].destination_position(),
                );
                lemma_patched_word(
                    continued,
                    leave.destination_address as int,
                    end,
                    breaks[i].destination_position(),
                );
            }
            assert forall|i: int| 0 <= i < continues.len() implies (
            #[trigger] continues[i]).destination_in(program_memory@) == start by {
                lemma_patched_word(
                    continued,
                    leave.destination_address as int,
                    end,
                    continues[i].destination_position(),
                );
            }
        }
        self.jump_end_instruction = None;
        self.start_position = None;
        self.jump_end_instructions = Vec::new();
        self.jump_start_instructions = Vec::new();
        proof {
            if reference_stack.well_formed(old(program_memory)@.len()) {
                lemma_well_formed_grows(
                    *reference_stack,
                    old(program_memory)@.len(),
                    program_memory@.len(),
                );
            }
        }
        Ok(())
    }

    /// True where `post` and the program after are what a jump out of or
    /// back into the loop comes to: a jump whose destination is still open
    /// is added to the program and to the jumps that wait.
    pub open spec fn jumped(
        waiting_before: Seq<JumpInstruction>,
        waiting_after: Seq<JumpInstruction>,
        before: Seq<u8>,
        after: Seq<u8>,
        result: Result<bool, String>,
    ) -> bool {
        &&& result == Ok::<bool, String>(true)
        &&& after == before + JumpInstruction::bytes(0)
        &&& waiting_after == waiting_before.push(JumpInstruction { address: before.len() as usize })
    }

    /// Leaves the loop from inside: adds a jump to the end of the loop.
    pub fn on_break(&mut self, program_memory: &mut MemoryManager) -> (result: Result<
        bool,
        String,
    >)
        requires
            old(self).well_formed(old(program_memory)@.len()),
        ensures
            WhileBlock::jumped(
                old(self).jump_end_instructions@,
                final(self).jump_end_instructions@,
                old(program_memory)@,
                final(program_memory)@,
                result,
            ),
            final(self).jump_start_instructions@ == old(self).jump_start_instructions@,
            final(self).jump_end_instruction == old(self).jump_end_instruction,
            final(self).start_position == old(self).start_position,
            final(self).well_formed(final(program_memory)@.len()),
    {
        let jump = JumpInstruction::new_alloc(program_memory, 0);
        self.jump_end_instructions.push(jump);
        Ok(true)
    }

    /// Starts the next round of the loop: adds a jump to the check of the
    /// condition.
    pub fn on_continue(&mut self, program_memory: &mut MemoryManager) -> (result: Result<
        bool,
        String,
    >)
        requires
            old(self).well_formed(old(program_memory)@.len()),
        ensures
            WhileBlock::jumped(
                old(self).jump_start_instructions@,
                final(self).jump_start_instructions@,
                old(program_memory)@,
                final(program_memory)@,
                result,
            ),
            final(self).jump_end_instructions@ == old(self).jump_end_instructions@,
            final(self).jump_end_instruction == old(self).jump_end_instruction,
            final(self).start_position == old(self).start_position,
            final(self).well_formed(final(program_memory)@.len()),
    {
        let jump = JumpInstruction::new_alloc(program_memory, 0);
        self.jump_start_instructions.push(jump);
        Ok(true)
    }
}

/// Closing a loop adds one jump to the program, and changes the
/// destinations of the jumps that waited and nothing else of what the
/// program held: every byte that lies in none of these destinations stays
/// as it was.
pub proof fn lemma_exit_changes_destinations_alone(
    pre: WhileBlock,
    post: WhileBlock,
    before: Program,
    after: Program,
    position: int,
)
    requires
        pre.well_formed(before.memory.len()),
        before.memory.len() + 1 + USIZE_BYTES <= usize::MAX,
        WhileBlock::force_exited(pre, post, before, after, Ok(())),
        0 <= position < before.memory.len(),
        forall|i: int|
            0 <= i < pre.jump_end_instructions@.len() ==> !((
            #[trigger] pre.jump_end_instructions@[i]).destination_position() <= position
                < pre.jump_end_instructions@[i].end()),
        forall|i: int|
            0 <= i < pre.jump_start_instructions@.len() ==> !((
            #[trigger] pre.jump_start_instructions@[i]).destination_position() <= position
                < pre.jump_start_instructions@[i].end()),
        !(pre.jump_end_instruction->0.destination_address <= position
            < pre.jump_end_instruction->0.end()),
    ensures
        after.memory.len() == before.memory.len() + 1 + USIZE_BYTES,
        after.memory[position] == before.memory[position],
        after.memory.subrange(before.memory.len() as int, after.memory.len() as int)
            == JumpInstruction::bytes(pre.start_position->0),
{
    let start = pre.start_position->0;
    let looped = before.memory + JumpInstruction::bytes(start);
    let end = looped.len() as usize;
    let breaks = pre.jump_end_instructions@;
    let continues = pre.jump_start_instructions@;
    let broken = all_patched(breaks, breaks.len(), looped, end);
    let continued = all_patched(continues, continues.len(), broken, start);
    let leave = pre.jump_end_instruction->0.destination_address as int;
    crate::util::lemma_le_bytes_len(start as nat, USIZE_BYTES as nat);
    assert(looped.len() == before.memory.len() + 1 + USIZE_BYTES);
    lemma_all_patched_bytes(breaks, breaks.len(), looped, end, position);
    lemma_all_patched_bytes(continues, continues.len(), broken, start, position);
    lemma_patched_bytes(continued, leave, end, position);
    assert(looped[position] == before.memory[position]);
    let added = after.memory.subrange(before.memory.len() as int, after.memory.len() as int);
    assert forall|j: int| 0 <= j < added.len() implies #[trigger] added[j]
        == JumpInstruction::bytes(start)[j] by {
        let k = before.memory.len() + j;
        assert forall|i: int| 0 <= i < breaks.len() implies !((
        #[trigger] breaks[i]).destination_position() <= k < breaks[i].end()) by {
            assert(breaks[i].within(before.memory.len()));
        }
        assert forall|i: int| 0 <= i < continues.len() implies !((
        #[trigger] continues[i]).destination_position() <= k < continues[i].end()) by {
            assert(continues[i].within(before.memory.len()));
        }
        lemma_all_patched_bytes(breaks, breaks.len(), looped, end, k);
        lemma_all_patched_bytes(continues, continues.len(), broken, start, k);
        lemma_patched_bytes(continued, leave, end, k);
        assert(looped[k] == JumpInstruction::bytes(start)[j]);
    }
    assert(added =~= JumpInstruction::bytes(start));
}

} // verus!
