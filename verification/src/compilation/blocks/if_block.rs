//! Conditional blocks: `if`, followed by any number of `elif` and at most
//! one `else`.
use vstd::prelude::*;
use crate::compilation::blocks::{
    condition_jump, emit_condition, lemma_condition_appends, BlockHandler, Output, Program,
    StackSizes,
};
use crate::compilation::instructions::{
    all_patched,
    jumps_in_order,
    lemma_all_patched_bytes,
    lemma_patched_bytes,
    lemma_patched_word,
    set_all_destinations,
    JumpIfNotInstruction,
    JumpInstruction,
};
use crate::compilation::reference_manager::{
    lemma_longer_ok, lemma_shorter_ok, lemma_well_formed_grows, NamedReference, ReferenceStack,
};
use crate::lexical_parsing::symbols::{Block, Symbol};
use crate::memory::memory_manager::{patched, MemoryManager};
use crate::util::{usize_bytes, USIZE_BYTES};

verus! {

/// A conditional block. While it is open, it holds the jump that skips the
/// current branch where its condition is false, and the jumps at the end of
/// the branches before, all of which wait for a destination.
pub struct IfBlock {
    pub jump_next_instruction: Option<JumpIfNotInstruction>,
    pub jump_end_instructions: Vec<JumpInstruction>,
}

/// The block that chains a line to the conditional block before it: `elif`
/// or `else` where the line starts with one of them.
pub open spec fn chained(line: Seq<Symbol>) -> Option<Block> {
    if line.len() > 0 && (line[0] matches Symbol::Block(block) && (block == Block::Elif || block
        == Block::Else)) {
        Some(line[0]->Block_0)
    } else {
        None
    }
}

pub open spec fn elif_after_else_message() -> Seq<char> {
    Block::Elif.name() + " cannot follow an "@ + Block::Else.name()
        + " block as it will never be reached"@
}

pub open spec fn else_followed_message() -> Seq<char> {
    "Else cannot be followed by any other symbol"@
}

pub open spec fn else_after_else_message() -> Seq<char> {
    "'else' cannot follow an 'else' block as it will never be reached"@
}

impl IfBlock {
    /// True where the jumps that wait lie in order inside a program of
    /// `length` bytes, the jump that skips the current branch last.
    pub open spec fn well_formed(self, length: nat) -> bool {
        &&& jumps_in_order(self.jump_end_instructions@, length)
        &&& self.jump_next_instruction matches Some(jump) ==> jump.within(length) && forall|
            i: int,
        |
            0 <= i < self.jump_end_instructions@.len() ==> (
            #[trigger] self.jump_end_instructions@[i]).end() <= jump.address
    }

    /// The program after every jump that waits was given `position`.
    pub open spec fn landed(self, memory: Seq<u8>, position: usize) -> Seq<u8> {
        let ends = all_patched(
            self.jump_end_instructions@,
            self.jump_end_instructions@.len(),
            memory,
            position,
        );
        match self.jump_next_instruction {
            Some(jump) => patched(ends, jump.destination_address as int, usize_bytes(position)),
            None => ends,
        }
    }

    /// True where the program holds `position` as the destination of every
    /// jump that waited, and every such jump goes forward.
    pub open spec fn lands_at(self, memory: Seq<u8>, position: usize) -> bool {
        &&& forall|i: int|
            0 <= i < self.jump_end_instructions@.len() ==> (
            #[trigger] self.jump_end_instructions@[i]).destination_in(memory) == position
                && self.jump_end_instructions@[i].end() <= position
        &&& self.jump_next_instruction matches Some(jump) ==> jump.destination_in(memory)
            == position && jump.end() <= position
    }

    /// True where `post` and `after` are what entering the block comes to:
    /// the condition is checked by a jump that skips the branch. The names
    /// are left as they are.
    pub open spec fn entered(
        pre: Self,
        post: Self,
        line: Seq<Symbol>,
        before: Program,
        after: Program,
        result: Result<(), String>,
    ) -> bool {
        match condition_jump(line, before.references, before.output()) {
            Err(message) => result is Err && result->Err_0@ == message,
            Ok((jump, output)) => {
                &&& result is Ok
                &&& after.output() == output
                &&& after.references == before.references
                &&& post.jump_next_instruction == Some(jump)
                &&& post.jump_end_instructions@ == pre.jump_end_instructions@
            },
        }
    }

    /// True where `post` and `after` are what closing the block comes to:
    /// every jump that waits lands at the end of the program. Nothing is
    /// added to the program, and the names are left as they are.
    pub open spec fn force_exited(
        pre: Self,
        post: Self,
        before: Program,
        after: Program,
        result: Result<(), String>,
    ) -> bool {
        &&& result is Ok
        &&& after.memory == pre.landed(before.memory, before.memory.len() as usize)
        &&& pre.lands_at(after.memory, before.memory.len() as usize)
        &&& after.memory.len() == before.memory.len()
        &&& after.stack_sizes == before.stack_sizes
        &&& after.references == before.references
        &&& post.jump_next_instruction is None
        &&& post.jump_end_instructions@.len() == 0
    }

    /// The program after the current branch was ended for a branch that
    /// follows: a jump to the end of the block, whose destination is still
    /// open, and the start of the next branch as the destination of the
    /// jump that skips the current one.
    pub open spec fn branch_ended(self, memory: Seq<u8>) -> Seq<u8> {
        patched(
            memory + JumpInstruction::bytes(0),
            self.jump_next_instruction->0.destination_address as int,
            usize_bytes((memory.len() + 1 + USIZE_BYTES) as usize),
        )
    }

    /// True where `post` and `after` are what the line after the block
    /// comes to. A line that starts with `elif` or `else` continues the
    /// block: the current branch is ended, the condition of an `elif` is
    /// checked, the innermost scope, where there is one, is closed and a
    /// new one opened, and the result is `false`. Any other line closes
    /// the block, and the result is `true`.
    pub open spec fn exited(
        pre: Self,
        post: Self,
        line: Seq<Symbol>,
        before: Program,
        after: Program,
        result: Result<bool, String>,
    ) -> bool {
        match chained(line) {
            None => IfBlock::force_exited(
                pre,
                post,
                before,
                after,
                match result {
                    Ok(_) => Ok(()),
                    Err(message) => Err(message),
                },
            ) && (result is Ok ==> result->Ok_0),
            Some(block) => if block == Block::Else && line.len() > 1 {
                result is Err && result->Err_0@ == else_followed_message()
            } else if pre.jump_next_instruction is None {
                result is Err && result->Err_0@ == (if block == Block::Elif {
                    elif_after_else_message()
                } else {
                    else_after_else_message()
                })
            } else {
                let ended = pre.branch_ended(before.memory);
                let jump_end = pre.jump_end_instructions@.push(
                    JumpInstruction { address: before.memory.len() as usize },
                );
                let scopes = if before.references.scopes().len() == 0 {
                    seq![Seq::empty()]
                } else {
                    before.references.scopes().drop_last().push(Seq::empty())
                };
                if block == Block::Elif {
                    match condition_jump(
                        line,
                        before.references,
                        Output { memory: ended, stack_sizes: before.stack_sizes },
                    ) {
                        Err(message) => result is Err && result->Err_0@ == message,
                        Ok((jump, output)) => {
                            &&& result == Ok::<bool, String>(false)
                            &&& after.output() == output
                            &&& after.references.scopes() == scopes
                            &&& after.references.reference_depth_limit
                                == before.references.reference_depth_limit
                            &&& post.jump_next_instruction == Some(jump)
                            &&& post.jump_end_instructions@ == jump_end
                        },
                    }
                } else {
                    &&& result == Ok::<bool, String>(false)
                    &&& after.memory == ended
                    &&& after.stack_sizes == before.stack_sizes
                    &&& after.references.scopes() == scopes
                    &&& after.references.reference_depth_limit
                        == before.references.reference_depth_limit
                    &&& post.jump_next_instruction is None
                    &&& post.jump_end_instructions@ == jump_end
                }
            },
        }
    }

    /// A conditional block that has not been entered.
    pub fn new_block() -> (block: BlockHandler)
        ensures
            block matches BlockHandler::If(inner) && inner.jump_next_instruction is None
                && inner.jump_end_instructions@.len() == 0,
    {
        BlockHandler::If(
            IfBlock { jump_next_instruction: None, jump_end_instructions: Vec::new() },
        )
    }

    /// Enters the block with the line that opens it.
    pub fn on_entry(
        &mut self,
        program_memory: &mut MemoryManager,
        reference_stack: &mut ReferenceStack,
        stack_sizes: &mut StackSizes,
        symbol_line: &[Symbol],
    ) -> (result: Result<(), String>)
        requires
            symbol_line@.len() >= 1,
            old(reference_stack).well_formed(old(program_memory)@.len()),
            old(self).well_formed(old(program_memory)@.len()),
            old(self).jump_next_instruction is None,
        ensures
            IfBlock::entered(
                *old(self),
                *final(self),
                symbol_line@,
                Program {
                    memory: old(program_memory)@,
                    stack_sizes: old(stack_sizes)@,
                    references: *old(reference_stack),
                },
                Program {
                    memory: final(program_memory)@,
                    stack_sizes: final(stack_sizes)@,
                    references: *final(reference_stack),
                },
                result,
            ),
            old(program_memory)@.len() <= final(program_memory)@.len(),
            final(stack_sizes)@.len() == old(stack_sizes)@.len(),
            result is Ok ==> final(self).well_formed(final(program_memory)@.len()),
            old(reference_stack).well_formed(old(program_memory)@.len()) && result is Ok
                ==> final(reference_stack).well_formed(final(program_memory)@.len()),
            *final(reference_stack) == *old(reference_stack),
    {
        let jump = match emit_condition(symbol_line, program_memory, reference_stack, stack_sizes) {
            Ok(jump) => jump,
            Err(message) => {
                return Err(message);
            },
        };
        self.jump_next_instruction = Some(jump);
        proof {
            lemma_well_formed_grows(
                *reference_stack,
                old(program_memory)@.len(),
                program_memory@.len(),
            );
        }
        Ok(())
    }

    /// Handles the line that follows the block.
    pub fn on_exit(
        &mut self,
        program_memory: &mut MemoryManager,
        reference_stack: &mut ReferenceStack,
        stack_sizes: &mut StackSizes,
        symbol_line: &[Symbol],
    ) -> (result: Result<bool, String>)
        requires
            old(reference_stack).well_formed(old(program_memory)@.len()),
            old(self).well_formed(old(program_memory)@.len()),
        ensures
            IfBlock::exited(
                *old(self),
                *final(self),
                symbol_line@,
                Program {
                    memory: old(program_memory)@,
                    stack_sizes: old(stack_sizes)@,
                    references: *old(reference_stack),
                },
                Program {
                    memory: final(program_memory)@,
                    stack_sizes: final(stack_sizes)@,
                    references: *final(reference_stack),
                },
                result,
            ),
            old(program_memory)@.len() <= final(program_memory)@.len(),
            final(stack_sizes)@.len() == old(stack_sizes)@.len(),
            result is Ok ==> final(self).well_formed(final(program_memory)@.len()),
            old(reference_stack).well_formed(old(program_memory)@.len()) && result is Ok
                ==> final(reference_stack).well_formed(final(program_memory)@.len()),
            result is Ok ==> final(reference_stack).reference_depth_limit
                == old(reference_stack).reference_depth_limit,
    {
        if symbol_line.len() == 0 {
            return match self.on_forced_exit(program_memory, reference_stack, stack_sizes) {
                Ok(_) => Ok(true),
                Err(message) => Err(message),
            };
        }
        let block_type = match &symbol_line[0] {
            Symbol::Block(Block::Elif) => Block::Elif,
            Symbol::Block(Block::Else) => Block::Else,
            _ => {
                return match self.on_forced_exit(program_memory, reference_stack, stack_sizes) {
                    Ok(_) => Ok(true),
                    Err(message) => Err(message),
                };
            },
        };
        if block_type == Block::Else && symbol_line.len() > 1 {
            return Err(String::from_str("Else cannot be followed by any other symbol"));
        }
        let jump_next = match &self.jump_next_instruction {
            Some(jump_next) => JumpIfNotInstruction {
                address: jump_next.address,
                destination_address: jump_next.destination_address,
            },
            None => {
                if block_type == Block::Elif {
                    let mut message = String::from_str(Block::Elif.get_name());
                    message.append(" cannot follow an ");
                    message.append(Block::Else.get_name());
                    message.append(" block as it will never be reached");
                    return Err(message);
                } else {
                    return Err(
                        String::from_str(
                            "'else' cannot follow an 'else' block as it will never be reached",
                        ),
                    );
                }
            },
        };
        let ghost ends = self.jump_end_instructions@;
        let jump_end = JumpInstruction::new_alloc(program_memory, 0);
        self.jump_end_instructions.push(jump_end);
        jump_next.set_destination(program_memory.get_position(), program_memory);
        self.jump_next_instruction = None;
        assert(self.well_formed(program_memory@.len())) by {
            assert forall|i: int, j: int|
                0 <= i < j < self.jump_end_instructions@.len() implies (
            #[trigger] self.jump_end_instructions@[i]).end() <= (
            #[trigger] self.jump_end_instructions@[j]).address by {
                if j == ends.len() {
                    assert(ends[i].end() <= jump_next.address);
                }
            }
        }
        if block_type == Block::Elif {
            proof {
                lemma_well_formed_grows(
                    *reference_stack,
                    old(program_memory)@.len(),
                    program_memory@.len(),
                );
            }
            let jump = match emit_condition(
                symbol_line,
                program_memory,
                reference_stack,
                stack_sizes,
            ) {
                Ok(jump) => jump,
                Err(message) => {
                    return Err(message);
                },
            };
            self.jump_next_instruction = Some(jump);
        }
        let ghost refs_before = *reference_stack;
        proof {
            lemma_well_formed_grows(refs_before, old(program_memory)@.len(), program_memory@.len());
        }
        if reference_stack.get_depth() > 0 {
            reference_stack.remove_handler();
            proof {
                lemma_shorter_ok(refs_before, *reference_stack, program_memory@.len());
            }
        } else {
            assert(reference_stack.scopes() =~= Seq::<Seq<NamedReference>>::empty());
        }
        let ghost refs_middle = *reference_stack;
        reference_stack.add_handler();
        proof {
            lemma_longer_ok(refs_middle, *reference_stack, program_memory@.len());
            if refs_before.stack@.len() == 0 {
                assert(reference_stack.scopes() =~= seq![Seq::<NamedReference>::empty()]);
            }
        }
        Ok(false)
    }

    /// Closes the block.
    pub fn on_forced_exit(
        &mut self,
        program_memory: &mut MemoryManager,
        reference_stack: &mut ReferenceStack,
        _stack_sizes: &mut StackSizes,
    ) -> (result: Result<(), String>)
        requires
            old(self).well_formed(old(program_memory)@.len()),
        ensures
            IfBlock::force_exited(
                *old(self),
                *final(self),
                Program {
                    memory: old(program_memory)@,
                    stack_sizes: old(_stack_sizes)@,
                    references: *old(reference_stack),
                },
                Program {
                    memory: final(program_memory)@,
                    stack_sizes: final(_stack_sizes)@,
                    references: *final(reference_stack),
                },
                result,
            ),
            old(program_memory)@.len() == final(program_memory)@.len(),
            result is Ok ==> old(self).lands_at(
                final(program_memory)@,
                old(program_memory)@.len() as usize,
            ),
            final(self).well_formed(final(program_memory)@.len()),
            old(reference_stack).well_formed(old(program_memory)@.len()) && result is Ok
                ==> final(reference_stack).well_formed(final(program_memory)@.len()),
            result is Ok,
            *final(reference_stack) == *old(reference_stack),
    {
        let position: usize = program_memory.get_position();
        set_all_destinations(&self.jump_end_instructions, position, program_memory);
        let ghost ends = program_memory@;
        match &self.jump_next_instruction {
            Some(instruction) => {
                instruction.set_destination(position, program_memory);
                proof {
                    assert forall|i: int|
                        0 <= i < self.jump_end_instructions@.len() implies (
                    #[trigger] self.jump_end_instructions@[i]).destination_in(program_memory@)
                        == position by {
                        lemma_patched_word(
                            ends,
                            instruction.destination_address as int,
                            position,
                            self.jump_end_instructions@[i].destination_position(),
                        );
                    }
                }
            },
            None => {},
        }
        self.jump_next_instruction = None;
        self.jump_end_instructions = Vec::new();
        Ok(())
    }
}

/// Closing a conditional block changes the destinations of the jumps that
/// waited, and nothing else: the program keeps its length, and every byte
/// that lies in none of these destinations stays as it was.
pub proof fn lemma_exit_changes_destinations_alone(
    pre: IfBlock,
    post: IfBlock,
    before: Program,
    after: Program,
    result: Result<(), String>,
    position: int,
)
    requires
        IfBlock::force_exited(pre, post, before, after, result),
        0 <= position < before.memory.len(),
        forall|i: int|
            0 <= i < pre.jump_end_instructions@.len() ==> !((
            #[trigger] pre.jump_end_instructions@[i]).destination_position() <= position
                < pre.jump_end_instructions@[i].end()),
        pre.jump_next_instruction matches Some(jump) ==> !(jump.destination_address <= position
            < jump.end()),
    ensures
        after.memory.len() == before.memory.len(),
        after.memory[position] == before.memory[position],
{
    let end = before.memory.len() as usize;
    let jumps = pre.jump_end_instructions@;
    lemma_all_patched_bytes(jumps, jumps.len(), before.memory, end, position);
    match pre.jump_next_instruction {
        Some(jump) => {
            lemma_patched_bytes(
                all_patched(jumps, jumps.len(), before.memory, end),
                jump.destination_address as int,
                end,
                position,
            );
        },
        None => {},
    }
}

/// A branch that follows lands the jump that skipped the branch before it.
/// Once a line that starts with `elif` or `else` has continued the block,
/// the program holds the start of the new branch as the destination of that
/// jump, whatever the condition of the new branch added to the program, and
/// the jump goes forward.
pub proof fn lemma_next_branch_lands(
    pre: IfBlock,
    post: IfBlock,
    line: Seq<Symbol>,
    before: Program,
    after: Program,
)
    requires
        pre.well_formed(before.memory.len()),
        before.memory.len() + 1 + USIZE_BYTES <= usize::MAX,
        IfBlock::exited(pre, post, line, before, after, Ok(false)),
    ensures
        pre.jump_next_instruction matches Some(jump) && jump.destination_in(after.memory)
            == before.memory.len() + 1 + USIZE_BYTES && jump.end() <= before.memory.len() + 1
            + USIZE_BYTES && before.memory.len() + 1 + USIZE_BYTES <= after.memory.len(),
{
    assert(chained(line) is Some);
    assert(pre.jump_next_instruction is Some);
    let jump = pre.jump_next_instruction->0;
    assert(jump.within(before.memory.len()));
    let start = (before.memory.len() + 1 + USIZE_BYTES) as usize;
    let ended = pre.branch_ended(before.memory);
    let position = jump.destination_address as int;
    lemma_patched_word(before.memory + JumpInstruction::bytes(0), position, start, position);
    crate::util::lemma_le_bytes_len(0, USIZE_BYTES as nat);
    assert(ended.len() == before.memory.len() + 1 + USIZE_BYTES);
    if chained(line) == Some(Block::Elif) {
        lemma_condition_appends(
            line,
            before.references,
            Output { memory: ended, stack_sizes: before.stack_sizes },
        );
        assert(after.memory.subrange(position, position + USIZE_BYTES) =~= ended.subrange(
            position,
            position + USIZE_BYTES,
        )) by {
            assert forall|i: int| position <= i < position + USIZE_BYTES implies #[trigger] after.memory[i]
                == ended[i] by {
                assert(ended[i] == after.memory.subrange(0, ended.len() as int)[i]);
            }
        }
    }
}

} // verus!
