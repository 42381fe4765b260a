//! Blocks of lines: the frame counters that every block shares, the kinds of
//! block, and the coordinator that opens and closes blocks as indentation
//! changes.
use vstd::prelude::*;
use crate::compilation::arithmetic::{
    evaluate_arithmetic_to_types, evaluated_section, lemma_prefix_of_prefix, lemma_section_appends,
    ReturnModel,
};
use crate::compilation::instructions::{JumpIfNotInstruction, JumpInstruction};
use crate::compilation::reference_manager::{
    lemma_longer_ok, lemma_shorter_ok, lemma_well_formed_grows, Reference, ReferenceStack,
};
use crate::lexical_parsing::symbols::{Symbol, TypeSymbol};
use crate::memory::address::lemma_address_length;
use crate::memory::memory_manager::MemoryManager;

pub mod base_block;
pub mod class_block;
pub mod function_block;
pub mod if_block;
pub mod while_block;

verus! {

/// The kinds of block.
#[derive(PartialEq, Eq, Structural, Copy, Clone, Debug)]
pub enum BlockType {
    Base,
    If,
    While,
    Function,
    Class,
}

/// What is being compiled: the program so far, the size of the frame of
/// each open scope, and the names that are known.
pub struct Program {
    pub memory: Seq<u8>,
    pub stack_sizes: Seq<usize>,
    pub references: ReferenceStack,
}

impl Program {
    /// The program and the frame sizes alone.
    pub open spec fn output(self) -> Output {
        Output { memory: self.memory, stack_sizes: self.stack_sizes }
    }

    /// True where every name stands for something well formed in a program
    /// of this length.
    pub open spec fn well_formed(self) -> bool {
        self.references.well_formed(self.memory.len())
    }
}

/// The state of a compilation whose parts are held apart.
pub open spec fn program_of(
    program_memory: MemoryManager,
    reference_stack: ReferenceStack,
    stack_sizes: StackSizes,
) -> Program {
    Program { memory: program_memory@, stack_sizes: stack_sizes@, references: reference_stack }
}

/// The message for a block that is closed without having been opened.
pub open spec fn not_open_message() -> Seq<char> {
    "The block has not been opened"@
}

/// The error for a block that is closed without having been opened.
pub fn not_open_error() -> (message: String)
    ensures
        message@ == not_open_message(),
{
    String::from_str("The block has not been opened")
}

/// What has been produced so far: the program, and the size of the stack
/// frame of each open scope, innermost last.
pub struct Output {
    pub memory: Seq<u8>,
    pub stack_sizes: Seq<usize>,
}

/// What a step that writes to the program and to the frame counters came
/// to: the new program and counters, or the message of the failure.
pub open spec fn produced(result: Result<(), String>, memory: Seq<u8>, stack_sizes: Seq<usize>)
    -> Result<Output, Seq<char>> {
    match result {
        Ok(_) => Ok(Output { memory, stack_sizes }),
        Err(message) => Err(message@),
    }
}

/// True where the innermost frame exists and can grow by `amount` bytes.
pub open spec fn frame_has_room(stack_sizes: Seq<usize>, amount: usize) -> bool {
    stack_sizes.len() > 0 && stack_sizes.last() + amount <= usize::MAX
}

/// The frame counters after the innermost frame grew by `amount` bytes.
pub open spec fn grown(stack_sizes: Seq<usize>, amount: usize) -> Seq<usize> {
    stack_sizes.update(stack_sizes.len() - 1, (stack_sizes.last() + amount) as usize)
}

/// The size of the stack frame of each open scope, innermost last.
pub struct StackSizes {
    sizes: Vec<usize>,
}

impl View for StackSizes {
    type V = Seq<usize>;

    closed spec fn view(&self) -> Seq<usize> {
        self.sizes@
    }
}

impl StackSizes {
    /// No frames.
    pub fn new() -> (stack_sizes: Self)
        ensures
            stack_sizes@ == Seq::<usize>::empty(),
    {
        StackSizes { sizes: Vec::new() }
    }

    /// Opens an empty frame.
    pub fn add_stack(&mut self)
        ensures
            final(self)@ == old(self)@.push(0),
    {
        self.sizes.push(0);
    }

    /// Closes the innermost frame.
    pub fn remove_stack(&mut self)
        requires
            old(self)@.len() > 0,
        ensures
            final(self)@ == old(self)@.drop_last(),
    {
        self.sizes.pop();
    }

    /// The number of open frames.
    pub fn depth(&self) -> (depth: usize)
        ensures
            depth == self@.len(),
    {
        self.sizes.len()
    }

    /// The size of the innermost frame.
    pub fn get_stack_size(&self) -> (size: usize)
        requires
            self@.len() > 0,
        ensures
            size == self@.last(),
    {
        self.sizes[self.sizes.len() - 1]
    }

    /// True where the innermost frame exists and can grow by `amount` bytes.
    pub fn has_room(&self, amount: usize) -> (room: bool)
        ensures
            room == frame_has_room(self@, amount),
    {
        let depth: usize = self.sizes.len();
        depth > 0 && self.sizes[depth - 1] <= usize::MAX - amount
    }

    /// Grows the innermost frame by `amount` bytes. Returns the offset at
    /// which the new bytes start, which is the size of the frame before.
    pub fn increment_stack_size(&mut self, amount: usize) -> (offset: usize)
        requires
            frame_has_room(old(self)@, amount),
        ensures
            offset == old(self)@.last(),
            final(self)@ == grown(old(self)@, amount),
    {
        let depth: usize = self.sizes.len();
        let offset: usize = self.sizes[depth - 1];
        self.sizes.set(depth - 1, offset + amount);
        offset
    }
}

/// Growing a frame never makes it smaller, so the size of a frame when its
/// block ends is the largest size it had.
pub proof fn lemma_frame_only_grows(stack_sizes: Seq<usize>, amount: usize)
    requires
        frame_has_room(stack_sizes, amount),
    ensures
        grown(stack_sizes, amount).len() == stack_sizes.len(),
        grown(stack_sizes, amount).last() >= stack_sizes.last(),
        grown(stack_sizes, amount).drop_last() == stack_sizes.drop_last(),
{
    assert(grown(stack_sizes, amount).drop_last() =~= stack_sizes.drop_last());
}

/// What checking the condition in the header of a block produces: the
/// condition, which is all of the header but its first symbol, stored in a
/// boolean, and a jump that is taken where the boolean is false and whose
/// destination is still open.
pub open spec fn condition_jump(line: Seq<Symbol>, reference_stack: ReferenceStack, before: Output)
    -> Result<(JumpIfNotInstruction, Output), Seq<char>> {
    match evaluated_section(
        line.subrange(1, line.len() as int),
        ReturnModel::OneOfTypes(seq![TypeSymbol::Boolean]),
        reference_stack,
        before,
    ) {
        Err(message) => Err(message),
        Ok(evaluated) => {
            let condition = evaluated.value->0.address()->0;
            Ok(
                (
                    JumpIfNotInstruction {
                        address: evaluated.output.memory.len() as usize,
                        destination_address: (evaluated.output.memory.len() + 1
                            + condition.bytes().len()) as usize,
                    },
                    Output {
                        memory: evaluated.output.memory + JumpIfNotInstruction::bytes(condition, 0),
                        stack_sizes: evaluated.output.stack_sizes,
                    },
                ),
            )
        },
    }
}

/// Checking a condition only adds to the program: what the program held
/// before is the start of what it holds after.
pub proof fn lemma_condition_appends(
    line: Seq<Symbol>,
    reference_stack: ReferenceStack,
    before: Output,
)
    ensures
        condition_jump(line, reference_stack, before) matches Ok((_, output))
            ==> before.memory.is_prefix_of(output.memory),
{
    let options = ReturnModel::OneOfTypes(seq![TypeSymbol::Boolean]);
    let condition = line.subrange(1, line.len() as int);
    lemma_section_appends(condition, options, reference_stack, before);
    match (
        evaluated_section(condition, options, reference_stack, before),
        condition_jump(line, reference_stack, before),
    ) {
        (Ok(evaluated), Ok((_, output))) => {
            assert(evaluated.output.memory.is_prefix_of(output.memory));
            lemma_prefix_of_prefix(before.memory, evaluated.output.memory, output.memory);
        },
        _ => {},
    }
}

/// Emits the check of the condition in the header of a block.
pub fn emit_condition(
    line: &[Symbol],
    program_memory: &mut MemoryManager,
    reference_stack: &ReferenceStack,
    stack_sizes: &mut StackSizes,
) -> (result: Result<JumpIfNotInstruction, String>)
    requires
        line@.len() >= 1,
        reference_stack.well_formed(old(program_memory)@.len()),
    ensures
        old(program_memory)@.len() <= final(program_memory)@.len(),
        final(stack_sizes)@.len() == old(stack_sizes)@.len(),
        match condition_jump(
            line@,
            *reference_stack,
            Output { memory: old(program_memory)@, stack_sizes: old(stack_sizes)@ },
        ) {
            Err(message) => result is Err && result->Err_0@ == message,
            Ok((jump, output)) => result == Ok::<JumpIfNotInstruction, String>(jump)
                && final(program_memory)@ == output.memory
                && final(stack_sizes)@ == output.stack_sizes && jump.within(
                final(program_memory)@.len(),
            ) && jump.end() == final(program_memory)@.len() && old(program_memory)@.len()
                <= jump.address,
        },
{
    let condition = vstd::slice::slice_subrange(line, 1, line.len());
    let mut wanted: Vec<TypeSymbol> = Vec::new();
    wanted.push(TypeSymbol::Boolean);
    assert(wanted@ =~= seq![TypeSymbol::Boolean]);
    let result = match evaluate_arithmetic_to_types(
        condition,
        wanted.as_slice(),
        program_memory,
        reference_stack,
        stack_sizes,
    ) {
        Ok(result) => result,
        Err(message) => {
            return Err(message);
        },
    };
    let condition_boolean = result.as_ref();
    proof {
        lemma_address_length(condition_boolean.address()->0);
    }
    Ok(JumpIfNotInstruction::new_alloc(program_memory, condition_boolean.get_address(), 0))
}

/// A block that is open, of any kind.
pub enum BlockHandler {
    Base(base_block::BaseBlock),
    Class(class_block::ClassBlock),
    Function(function_block::FunctionBlock),
    If(if_block::IfBlock),
    While(while_block::WhileBlock),
}

pub open spec fn break_in_function_message() -> Seq<char> {
    "Can't break out of a function"@
}

pub open spec fn continue_in_function_message() -> Seq<char> {
    "Can't continue a function"@
}

pub open spec fn break_outside_loop_message() -> Seq<char> {
    "Break can only be used inside a loop"@
}

pub open spec fn continue_outside_loop_message() -> Seq<char> {
    "Continue can only be used inside a loop"@
}

pub open spec fn indentation_message() -> Seq<char> {
    "Unexpected indentation"@
}

/// What closing a block came to, without what a line that continues the
/// block came to.
pub open spec fn closing(result: Result<bool, String>) -> Result<(), String> {
    match result {
        Ok(_) => Ok(()),
        Err(message) => Err(message),
    }
}

impl BlockHandler {
    /// The kind of the block.
    pub open spec fn block_type(self) -> BlockType {
        match self {
            BlockHandler::Base(_) => BlockType::Base,
            BlockHandler::Class(_) => BlockType::Class,
            BlockHandler::Function(_) => BlockType::Function,
            BlockHandler::If(_) => BlockType::If,
            BlockHandler::While(_) => BlockType::While,
        }
    }

    /// True where the instructions that the block will patch lie in order
    /// inside a program of `length` bytes.
    pub open spec fn well_formed(self, length: nat) -> bool {
        match self {
            BlockHandler::Base(block) => block.well_formed(length),
            BlockHandler::Class(_) => true,
            BlockHandler::Function(block) => block.well_formed(length),
            BlockHandler::If(block) => block.well_formed(length),
            BlockHandler::While(block) => block.well_formed(length),
        }
    }

    /// True where the block has not been entered.
    pub open spec fn is_new(self) -> bool {
        match self {
            BlockHandler::Base(block) => block.stack_create_instruction is None,
            BlockHandler::Class(block) => block.is_new(),
            BlockHandler::Function(block) => block.is_new(),
            BlockHandler::If(block) => block.jump_next_instruction is None
                && block.jump_end_instructions@.len() == 0,
            BlockHandler::While(block) => block.is_new(),
        }
    }

    /// True where `post` and `after` are what entering the block with the
    /// line that opens it comes to.
    pub open spec fn entered(
        pre: Self,
        post: Self,
        line: Seq<Symbol>,
        before: Program,
        after: Program,
        result: Result<(), String>,
    ) -> bool {
        &&& result is Ok ==> post.block_type() == pre.block_type()
        &&& match pre {
            BlockHandler::Base(block) => base_block::BaseBlock::entered(
                block,
                post->Base_0,
                before,
                after,
                result,
            ),
            BlockHandler::Class(block) => class_block::ClassBlock::entered(
                block,
                post->Class_0,
                line,
                before,
                after,
                result,
            ),
            BlockHandler::Function(block) => function_block::FunctionBlock::entered(
                block,
                post->Function_0,
                line,
                before,
                after,
                result,
            ),
            BlockHandler::If(block) => if_block::IfBlock::entered(
                block,
                post->If_0,
                line,
                before,
                after,
                result,
            ),
            BlockHandler::While(block) => while_block::WhileBlock::entered(
                block,
                post->While_0,
                line,
                before,
                after,
                result,
            ),
        }
    }

    /// True where `post` and `after` are what closing the block comes to.
    pub open spec fn force_exited(
        pre: Self,
        post: Self,
        before: Program,
        after: Program,
        result: Result<(), String>,
    ) -> bool {
        &&& post.block_type() == pre.block_type()
        &&& match pre {
            BlockHandler::Base(block) => base_block::BaseBlock::exited(
                block,
                post->Base_0,
                before,
                after,
                result,
            ),
            BlockHandler::Class(block) => class_block::ClassBlock::force_exited(
                block,
                post->Class_0,
                before,
                after,
                result,
            ),
            BlockHandler::Function(block) => function_block::FunctionBlock::force_exited(
                block,
                post->Function_0,
                before,
                after,
                result,
            ),
            BlockHandler::If(block) => if_block::IfBlock::force_exited(
                block,
                post->If_0,
                before,
                after,
                result,
            ),
            BlockHandler::While(block) => while_block::WhileBlock::force_exited(
                block,
                post->While_0,
                before,
                after,
                result,
            ),
        }
    }

    /// True where `post` and `after` are what the line that follows the
    /// block comes to. A conditional block may take the line as its next
    /// branch, and the result is `false`; any other block is closed, and
    /// the result is `true`.
    pub open spec fn exited(
        pre: Self,
        post: Self,
        line: Seq<Symbol>,
        before: Program,
        after: Program,
        result: Result<bool, String>,
    ) -> bool {
        match pre {
            BlockHandler::If(block) => post is If && if_block::IfBlock::exited(
                block,
                post->If_0,
                line,
                before,
                after,
                result,
            ),
            _ => BlockHandler::force_exited(pre, post, before, after, closing(result)) && (
            result is Ok ==> result->Ok_0),
        }
    }

    /// True where `post` and `after` are what a `break`, or a `continue`
    /// where `is_break` is false, comes to when the block is asked: a loop
    /// adds a jump whose destination is still open, and the result is
    /// `true`; a function refuses; any other block hands the question on,
    /// and the result is `false`.
    pub open spec fn jumped(
        pre: Self,
        post: Self,
        is_break: bool,
        before: Seq<u8>,
        after: Seq<u8>,
        result: Result<bool, String>,
    ) -> bool {
        match pre {
            BlockHandler::While(block) => {
                &&& post matches BlockHandler::While(left)
                &&& result == Ok::<bool, String>(true)
                &&& after == before + JumpInstruction::bytes(0)
                &&& left.jump_end_instruction == block.jump_end_instruction
                &&& left.start_position == block.start_position
                &&& left.jump_end_instructions@ == (if is_break {
                    block.jump_end_instructions@.push(
                        JumpInstruction { address: before.len() as usize },
                    )
                } else {
                    block.jump_end_instructions@
                })
                &&& left.jump_start_instructions@ == (if is_break {
                    block.jump_start_instructions@
                } else {
                    block.jump_start_instructions@.push(
                        JumpInstruction { address: before.len() as usize },
                    )
                })
            },
            BlockHandler::Function(_) => {
                &&& result is Err
                &&& result->Err_0@ == (if is_break {
                    break_in_function_message()
                } else {
                    continue_in_function_message()
                })
                &&& post == pre
                &&& after == before
            },
            _ => result == Ok::<bool, String>(false) && post == pre && after == before,
        }
    }

    /// The block after a line or a block inside it was accounted for, and
    /// whether that was accepted. Only a class refuses anything: what is
    /// neither a line that declares a property nor a function block.
    pub open spec fn sub_block_updated(self, block_type: Option<BlockType>) -> (
        BlockHandler,
        Result<(), Seq<char>>,
    ) {
        match self {
            BlockHandler::Class(block) => if block.allow_line {
                (
                    BlockHandler::Class(
                        class_block::ClassBlock {
                            name: block.name,
                            properties_phase: block.properties_phase,
                            allow_line: false,
                        },
                    ),
                    Ok(()),
                )
            } else if block_type == Some(BlockType::Function) {
                (
                    BlockHandler::Class(
                        class_block::ClassBlock {
                            name: block.name,
                            properties_phase: false,
                            allow_line: false,
                        },
                    ),
                    Ok(()),
                )
            } else {
                (self, Err(class_block::class_contents_message()))
            },
            _ => (self, Ok(())),
        }
    }

    /// The block after it took note of a line that is left to it: a class
    /// takes note of a line that declares a property.
    pub open spec fn line_handled(self) -> BlockHandler {
        match self {
            BlockHandler::Class(block) => BlockHandler::Class(
                class_block::ClassBlock {
                    name: block.name,
                    properties_phase: block.properties_phase,
                    allow_line: true,
                },
            ),
            _ => self,
        }
    }

    /// True where lines that declare variables are left to the block: in a
    /// class, until its first method.
    pub open spec fn takes_properties(self) -> bool {
        self matches BlockHandler::Class(block) && block.properties_phase
    }

    /// The kind of the block.
    pub fn get_block_type(&self) -> (block_type: BlockType)
        ensures
            block_type == self.block_type(),
    {
        match self {
            BlockHandler::Base(_) => BlockType::Base,
            BlockHandler::Class(_) => BlockType::Class,
            BlockHandler::Function(_) => BlockType::Function,
            BlockHandler::If(_) => BlockType::If,
            BlockHandler::While(_) => BlockType::While,
        }
    }

    /// True where lines that declare variables are left to the block.
    pub fn in_properties_phase(&self) -> (taken: bool)
        ensures
            taken == self.takes_properties(),
    {
        match self {
            BlockHandler::Class(block) => block.properties_phase,
            _ => false,
        }
    }

    /// Enters the block with the line that opens it.
    pub fn on_entry(
        &mut self,
        program_memory: &mut MemoryManager,
        reference_stack: &mut ReferenceStack,
        stack_sizes: &mut StackSizes,
        symbol_line: &[Symbol],
    ) -> (result: Result<(), String>)
        requires
            old(self).is_new(),
            symbol_line@.len() >= 1,
            old(reference_stack).well_formed(old(program_memory)@.len()),
        ensures
            BlockHandler::entered(
                *old(self),
                *final(self),
                symbol_line@,
                program_of(*old(program_memory), *old(reference_stack), *old(stack_sizes)),
                program_of(*final(program_memory), *final(reference_stack), *final(stack_sizes)),
                result,
            ),
            old(program_memory)@.len() <= final(program_memory)@.len(),
            result is Ok ==> final(self).well_formed(final(program_memory)@.len()),
            result is Ok ==> final(reference_stack).well_formed(final(program_memory)@.len()),
    {
        match self {
            BlockHandler::Base(block) => block.on_entry(
                program_memory,
                reference_stack,
                stack_sizes,
                symbol_line,
            ),
            BlockHandler::Class(block) => block.on_entry(
                program_memory,
                reference_stack,
                stack_sizes,
                symbol_line,
            ),
            BlockHandler::Function(block) => block.on_entry(
                program_memory,
                reference_stack,
                stack_sizes,
                symbol_line,
            ),
            BlockHandler::If(block) => block.on_entry(
                program_memory,
                reference_stack,
                stack_sizes,
                symbol_line,
            ),
            BlockHandler::While(block) => block.on_entry(
                program_memory,
                reference_stack,
                stack_sizes,
                symbol_line,
            ),
        }
    }

    /// Handles the line that follows the block.
    pub fn on_exit(
        &mut self,
        program_memory: &mut MemoryManager,
        reference_stack: &mut ReferenceStack,
        stack_sizes: &mut StackSizes,
        symbol_line: &[Symbol],
    ) -> (result: Result<bool, String>)
        requires
            old(self).well_formed(old(program_memory)@.len()),
            old(reference_stack).well_formed(old(program_memory)@.len()),
        ensures
            BlockHandler::exited(
                *old(self),
                *final(self),
                symbol_line@,
                program_of(*old(program_memory), *old(reference_stack), *old(stack_sizes)),
                program_of(*final(program_memory), *final(reference_stack), *final(stack_sizes)),
                result,
            ),
            old(program_memory)@.len() <= final(program_memory)@.len(),
            result is Ok ==> final(self).well_formed(final(program_memory)@.len()),
            result is Ok ==> final(reference_stack).well_formed(final(program_memory)@.len()),
    {
        match self {
            BlockHandler::Base(block) => match block.on_forced_exit(
                program_memory,
                reference_stack,
                stack_sizes,
            ) {
                Ok(_) => Ok(true),
                Err(message) => Err(message),
            },
            BlockHandler::Class(block) => match block.on_forced_exit(
                program_memory,
                reference_stack,
                stack_sizes,
            ) {
                Ok(_) => Ok(true),
                Err(message) => Err(message),
            },
            BlockHandler::Function(block) => block.on_exit(
                program_memory,
                reference_stack,
                stack_sizes,
                symbol_line,
            ),
            BlockHandler::If(block) => block.on_exit(
                program_memory,
                reference_stack,
                stack_sizes,
                symbol_line,
            ),
            BlockHandler::While(block) => block.on_exit(
                program_memory,
                reference_stack,
                stack_sizes,
                symbol_line,
            ),
        }
    }

    /// Closes the block.
    pub fn on_forced_exit(
        &mut self,
        program_memory: &mut MemoryManager,
        reference_stack: &mut ReferenceStack,
        stack_sizes: &mut StackSizes,
    ) -> (result: Result<(), String>)
        requires
            old(self).well_formed(old(program_memory)@.len()),
            old(reference_stack).well_formed(old(program_memory)@.len()),
        ensures
            BlockHandler::force_exited(
                *old(self),
                *final(self),
                program_of(*old(program_memory), *old(reference_stack), *old(stack_sizes)),
                program_of(*final(program_memory), *final(reference_stack), *final(stack_sizes)),
                result,
            ),
            old(program_memory)@.len() <= final(program_memory)@.len(),
            result is Ok ==> final(self).well_formed(final(program_memory)@.len()),
            result is Ok ==> final(reference_stack).well_formed(final(program_memory)@.len()),
    {
        match self {
            BlockHandler::Base(block) => block.on_forced_exit(
                program_memory,
                reference_stack,
                stack_sizes,
            ),
            BlockHandler::Class(block) => block.on_forced_exit(
                program_memory,
                reference_stack,
                stack_sizes,
            ),
            BlockHandler::Function(block) => block.on_forced_exit(
                program_memory,
                reference_stack,
                stack_sizes,
            ),
            BlockHandler::If(block) => block.on_forced_exit(
                program_memory,
                reference_stack,
                stack_sizes,
            ),
            BlockHandler::While(block) => block.on_forced_exit(
                program_memory,
                reference_stack,
                stack_sizes,
            ),
        }
    }

    /// Asks the block to take a `break`.
    pub fn on_break(&mut self, program_memory: &mut MemoryManager) -> (result: Result<
        bool,
        String,
    >)
        requires
            old(self).well_formed(old(program_memory)@.len()),
        ensures
            BlockHandler::jumped(
                *old(self),
                *final(self),
                true,
                old(program_memory)@,
                final(program_memory)@,
                result,
            ),
            old(program_memory)@.len() <= final(program_memory)@.len(),
            final(self).well_formed(final(program_memory)@.len()),
    {
        match self {
            BlockHandler::While(block) => block.on_break(program_memory),
            BlockHandler::Function(block) => block.on_break(program_memory),
            _ => Ok(false),
        }
    }

    /// Asks the block to take a `continue`.
    pub fn on_continue(&mut self, program_memory: &mut MemoryManager) -> (result: Result<
        bool,
        String,
    >)
        requires
            old(self).well_formed(old(program_memory)@.len()),
        ensures
            BlockHandler::jumped(
                *old(self),
                *final(self),
                false,
                old(program_memory)@,
                final(program_memory)@,
                result,
            ),
            old(program_memory)@.len() <= final(program_memory)@.len(),
            final(self).well_formed(final(program_memory)@.len()),
    {
        match self {
            BlockHandler::While(block) => block.on_continue(program_memory),
            BlockHandler::Function(block) => block.on_continue(program_memory),
            _ => Ok(false),
        }
    }

    /// Accounts for a line, or for a block of the given kind, inside the
    /// block.
    pub fn update_sub_block(&mut self, block_type: Option<BlockType>) -> (result: Result<
        (),
        String,
    >)
        ensures
            *final(self) == old(self).sub_block_updated(block_type).0,
            crate::util::outcome(result) == old(self).sub_block_updated(block_type).1,
            forall|length: nat| old(self).well_formed(length) ==> final(self).well_formed(length),
    {
        match self {
            BlockHandler::Class(block) => block.update_sub_block(block_type),
            _ => Ok(()),
        }
    }

    /// Leaves a line to the block.
    pub fn handle_line(&mut self, line: &[Symbol]) -> (result: Result<(), String>)
        ensures
            result is Ok,
            *final(self) == old(self).line_handled(),
            forall|length: nat| old(self).well_formed(length) ==> final(self).well_formed(length),
    {
        match self {
            BlockHandler::Class(block) => block.handle_line(line),
            _ => Ok(()),
        }
    }
}

/// A block that is well formed for a program stays so when the program
/// grows.
pub proof fn lemma_handler_grows(handler: BlockHandler, length: nat, longer: nat)
    requires
        handler.well_formed(length),
        length <= longer,
    ensures
        handler.well_formed(longer),
{
}

/// The blocks that are open, innermost last, with the frame counters and
/// the names that they share.
pub struct BlockCoordinator {
    pub stack: Vec<BlockHandler>,
    pub stack_sizes: StackSizes,
    pub reference_stack: ReferenceStack,
    /// True after a line that opened a class, until that line has been
    /// accounted for.
    pub skip_sub_block_check: bool,
}

/// True where `opened` is `stack` with one more scope, which is empty.
pub open spec fn scope_opened(stack: ReferenceStack, opened: ReferenceStack) -> bool {
    &&& opened.reference_depth_limit == stack.reference_depth_limit
    &&& opened.stack@.len() == stack.stack@.len() + 1
    &&& opened.stack@.drop_last() == stack.stack@
    &&& opened.scopes() == stack.scopes().push(Seq::empty())
}

/// True where `closed` is `stack` without its innermost scope, or `stack`
/// itself where no scope is open.
pub open spec fn scope_closed(stack: ReferenceStack, closed: ReferenceStack) -> bool {
    &&& closed.reference_depth_limit == stack.reference_depth_limit
    &&& if stack.stack@.len() == 0 {
        closed == stack
    } else {
        closed.stack@ == stack.stack@.drop_last() && closed.scopes() == stack.scopes().drop_last()
    }
}

/// The innermost block below `below` that is a loop or a function: the
/// block that a `break` or a `continue` reaches.
pub open spec fn absorber(stack: Seq<BlockHandler>, below: int) -> Option<int>
    decreases below,
{
    if below <= 0 || below > stack.len() {
        None
    } else if stack[below - 1] is While || stack[below - 1] is Function {
        Some(below - 1)
    } else {
        absorber(stack, below - 1)
    }
}

impl BlockCoordinator {
    /// True where every name and every open block is well formed for a
    /// program of `length` bytes.
    pub open spec fn well_formed(self, length: nat) -> bool {
        &&& self.reference_stack.well_formed(length)
        &&& forall|i: int|
            0 <= i < self.stack@.len() ==> (#[trigger] self.stack@[i]).well_formed(length)
    }

    /// What is being compiled, with the program given.
    pub open spec fn program(self, memory: Seq<u8>) -> Program {
        Program {
            memory,
            stack_sizes: self.stack_sizes@,
            references: self.reference_stack,
        }
    }

    /// True where `post` and `after` are what opening a block with the
    /// line `line` comes to: the innermost block accounts for a block of
    /// this kind inside it, a scope is opened for the new block, the new
    /// block is entered, and it becomes the innermost block.
    pub open spec fn block_added(
        pre: Self,
        post: Self,
        handler: BlockHandler,
        line: Seq<Symbol>,
        before: Seq<u8>,
        after: Seq<u8>,
        result: Result<(), String>,
    ) -> bool {
        let around = if pre.stack@.len() == 0 {
            pre.stack@
        } else {
            pre.stack@.update(
                pre.stack@.len() - 1,
                pre.stack@.last().sub_block_updated(Some(handler.block_type())).0,
            )
        };
        if pre.stack@.len() > 0 && pre.stack@.last().sub_block_updated(
            Some(handler.block_type()),
        ).1 is Err {
            result is Err && result->Err_0@ == pre.stack@.last().sub_block_updated(
                Some(handler.block_type()),
            ).1->Err_0
        } else {
            &&& exists|opened: ReferenceStack|
                scope_opened(pre.reference_stack, opened) && #[trigger] BlockHandler::entered(
                    handler,
                    post.stack@.last(),
                    line,
                    Program { memory: before, stack_sizes: pre.stack_sizes@, references: opened },
                    post.program(after),
                    result,
                )
            &&& result is Ok ==> post.stack@ == around.push(post.stack@.last())
                && post.skip_sub_block_check == pre.skip_sub_block_check
        }
    }

    /// True where `post` and `after` are what opening a new block of the
    /// kind `kind` with the line `line` comes to.
    pub open spec fn block_opened(
        pre: Self,
        post: Self,
        kind: BlockType,
        line: Seq<Symbol>,
        before: Seq<u8>,
        after: Seq<u8>,
        result: Result<(), String>,
    ) -> bool {
        exists|handler: BlockHandler|
            handler.block_type() == kind && handler.is_new() && #[trigger]
            BlockCoordinator::block_added(pre, post, handler, line, before, after, result)
    }

    /// True where `post` and `after` are what closing the innermost block
    /// comes to: the block is closed, and then its scope.
    pub open spec fn block_closed(
        pre: Self,
        post: Self,
        before: Seq<u8>,
        after: Seq<u8>,
        result: Result<(), String>,
    ) -> bool {
        if pre.stack@.len() == 0 {
            result is Err && result->Err_0@ == not_open_message() && after == before
                && post.stack@ == pre.stack@
        } else {
            &&& exists|closed: BlockHandler, left: ReferenceStack| #[trigger]
                BlockHandler::force_exited(
                    pre.stack@.last(),
                    closed,
                    pre.program(before),
                    Program { memory: after, stack_sizes: post.stack_sizes@, references: left },
                    result,
                ) && (if result is Ok {
                    scope_closed(left, post.reference_stack)
                } else {
                    post.reference_stack == left
                })
            &&& result is Ok ==> post.stack@ == pre.stack@.drop_last()
                && post.skip_sub_block_check == pre.skip_sub_block_check
        }
    }

    /// True where `post` and `after` are what the line `line`, which
    /// follows the innermost block, comes to for that block: the block and
    /// its scope are closed, and the result is `true`, or the block takes
    /// the line as its next branch, and the result is `false`.
    pub open spec fn block_left(
        pre: Self,
        post: Self,
        line: Seq<Symbol>,
        before: Seq<u8>,
        after: Seq<u8>,
        result: Result<bool, String>,
    ) -> bool {
        if pre.stack@.len() == 0 {
            result is Err && result->Err_0@ == not_open_message() && after == before
                && post.stack@ == pre.stack@
        } else {
            &&& exists|left: BlockHandler, names: ReferenceStack| #[trigger]
                BlockHandler::exited(
                    pre.stack@.last(),
                    left,
                    line,
                    pre.program(before),
                    Program { memory: after, stack_sizes: post.stack_sizes@, references: names },
                    result,
                ) && (result == Ok::<bool, String>(false) ==> post.stack@
                    == pre.stack@.drop_last().push(left)) && (if result == Ok::<bool, String>(
                    true,
                ) {
                    scope_closed(names, post.reference_stack)
                } else {
                    post.reference_stack == names
                })
            &&& result == Ok::<bool, String>(true) ==> post.stack@ == pre.stack@.drop_last()
            &&& result is Ok ==> post.skip_sub_block_check == pre.skip_sub_block_check
        }
    }

    /// True where `post` and `after` are what a `break`, or a `continue`
    /// where `is_break` is false, comes to: the innermost loop adds a jump
    /// whose destination is still open. Fails where no loop is open, or a
    /// function lies between the innermost loop and the line.
    pub open spec fn jumped(
        pre: Self,
        post: Self,
        is_break: bool,
        before: Seq<u8>,
        after: Seq<u8>,
        result: Result<(), String>,
    ) -> bool {
        &&& post.stack_sizes == pre.stack_sizes
        &&& post.reference_stack == pre.reference_stack
        &&& post.skip_sub_block_check == pre.skip_sub_block_check
        &&& match absorber(pre.stack@, pre.stack@.len() as int) {
            None => {
                &&& result is Err
                &&& result->Err_0@ == (if is_break {
                    break_outside_loop_message()
                } else {
                    continue_outside_loop_message()
                })
                &&& after == before
                &&& post.stack@ == pre.stack@
            },
            Some(index) => {
                &&& post.stack@ == pre.stack@.update(index, post.stack@[index])
                &&& BlockHandler::jumped(
                    pre.stack@[index],
                    post.stack@[index],
                    is_break,
                    before,
                    after,
                    match result {
                        Ok(_) => Ok(true),
                        Err(message) => Err(message),
                    },
                )
            },
        }
    }

    /// A coordinator without open blocks.
    pub fn new() -> (coordinator: Self)
        ensures
            coordinator.stack@.len() == 0,
            coordinator.stack_sizes@.len() == 0,
            coordinator.reference_stack.stack@.len() == 0,
            coordinator.reference_stack.reference_depth_limit == 0,
            !coordinator.skip_sub_block_check,
            forall|length: nat| coordinator.well_formed(length),
    {
        BlockCoordinator {
            stack: Vec::new(),
            stack_sizes: StackSizes::new(),
            reference_stack: ReferenceStack::new(),
            skip_sub_block_check: false,
        }
    }

    /// The number of open blocks.
    pub fn get_block_depth(&self) -> (depth: usize)
        ensures
            depth == self.stack@.len(),
    {
        self.stack.len()
    }

    /// The kind of the innermost block.
    pub fn get_block_handler_type(&self) -> (block_type: Option<BlockType>)
        ensures
            self.stack@.len() == 0 ==> block_type is None,
            self.stack@.len() > 0 ==> block_type == Some(self.stack@.last().block_type()),
    {
        let depth: usize = self.stack.len();
        if depth == 0 {
            None
        } else {
            Some(self.stack[depth - 1].get_block_type())
        }
    }

    /// True where lines that declare variables are left to the innermost
    /// block.
    pub fn in_properties_phase(&self) -> (taken: bool)
        ensures
            taken == (self.stack@.len() > 0 && self.stack@.last().takes_properties()),
    {
        let depth: usize = self.stack.len();
        depth > 0 && self.stack[depth - 1].in_properties_phase()
    }

    /// What `name` stands for, as seen from the innermost scope.
    pub fn get_reference(&self, name: &[String]) -> (reference: Result<&Reference, String>)
        ensures
            match self.reference_stack.lookup(name@) {
                Some(found) => reference is Ok && *reference->Ok_0 == found,
                None => reference is Err && reference->Err_0@
                    == crate::compilation::reference_manager::not_found_message(name@),
            },
    {
        self.reference_stack.get_reference(name)
    }

    /// Opens a block with the line `symbol_line`.
    pub fn add_block_handler(
        &mut self,
        handler: BlockHandler,
        program_memory: &mut MemoryManager,
        symbol_line: &[Symbol],
    ) -> (result: Result<(), String>)
        requires
            handler.is_new(),
            symbol_line@.len() >= 1,
            old(self).well_formed(old(program_memory)@.len()),
        ensures
            BlockCoordinator::block_added(
                *old(self),
                *final(self),
                handler,
                symbol_line@,
                old(program_memory)@,
                final(program_memory)@,
                result,
            ),
            old(program_memory)@.len() <= final(program_memory)@.len(),
            result is Ok ==> final(self).well_formed(final(program_memory)@.len()),
            result is Ok ==> final(self).stack@.len() == old(self).stack@.len() + 1,
            final(self).skip_sub_block_check == old(self).skip_sub_block_check,
    {
        let mut handler = handler;
        let depth: usize = self.stack.len();
        if depth > 0 {
            match self.stack[depth - 1].update_sub_block(Some(handler.get_block_type())) {
                Ok(_) => {},
                Err(message) => {
                    return Err(message);
                },
            }
        }
        let ghost around = self.stack@;
        let ghost closed = self.reference_stack;
        self.reference_stack.add_handler();
        let ghost opened = self.reference_stack;
        let ghost sizes = self.stack_sizes@;
        let ghost new_handler = handler;
        proof {
            lemma_longer_ok(closed, opened, old(program_memory)@.len());
            assert(scope_opened(closed, opened));
        }
        match handler.on_entry(
            program_memory,
            &mut self.reference_stack,
            &mut self.stack_sizes,
            symbol_line,
        ) {
            Ok(_) => {},
            Err(message) => {
                proof {
                    assert(BlockHandler::entered(
                        new_handler,
                        self.stack@.last(),
                        symbol_line@,
                        Program {
                            memory: old(program_memory)@,
                            stack_sizes: sizes,
                            references: opened,
                        },
                        self.program(program_memory@),
                        Err(message),
                    ));
                }
                return Err(message);
            },
        }
        self.stack.push(handler);
        proof {
            assert(BlockHandler::entered(
                new_handler,
                self.stack@.last(),
                symbol_line@,
                Program { memory: old(program_memory)@, stack_sizes: sizes, references: opened },
                self.program(program_memory@),
                Ok(()),
            ));
            assert forall|i: int| 0 <= i < self.stack@.len() implies (
            #[trigger] self.stack@[i]).well_formed(program_memory@.len()) by {
                if i < around.len() {
                    assert(self.stack@[i] == around[i]);
                    if i < depth - 1 {
                        assert(around[i] == old(self).stack@[i]);
                    }
                    assert(around[i].well_formed(old(program_memory)@.len()));
                    lemma_handler_grows(around[i], old(program_memory)@.len(), program_memory@.len());
                }
            }
        }
        Ok(())
    }

    /// Closes the innermost block.
    pub fn force_exit_block_handler(&mut self, program_memory: &mut MemoryManager) -> (result:
        Result<(), String>)
        requires
            old(self).well_formed(old(program_memory)@.len()),
        ensures
            BlockCoordinator::block_closed(
                *old(self),
                *final(self),
                old(program_memory)@,
                final(program_memory)@,
                result,
            ),
            old(program_memory)@.len() <= final(program_memory)@.len(),
            result is Ok ==> final(self).well_formed(final(program_memory)@.len()),
            result is Ok ==> final(self).stack@.len() + 1 == old(self).stack@.len(),
    {
        if self.stack.len() == 0 {
            return Err(not_open_error());
        }
        let mut handler = self.stack.pop().unwrap();
        assert(handler.well_formed(old(program_memory)@.len()));
        let result = handler.on_forced_exit(
            program_memory,
            &mut self.reference_stack,
            &mut self.stack_sizes,
        );
        let ghost left = self.reference_stack;
        if result.is_ok() && self.reference_stack.get_depth() > 0 {
            self.reference_stack.remove_handler();
            proof {
                lemma_shorter_ok(left, self.reference_stack, program_memory@.len());
            }
        }
        proof {
            assert(BlockHandler::force_exited(
                old(self).stack@.last(),
                handler,
                old(self).program(old(program_memory)@),
                Program {
                    memory: program_memory@,
                    stack_sizes: self.stack_sizes@,
                    references: left,
                },
                result,
            ) && (if result is Ok {
                scope_closed(left, self.reference_stack)
            } else {
                self.reference_stack == left
            }));
            assert forall|i: int| 0 <= i < self.stack@.len() implies (
            #[trigger] self.stack@[i]).well_formed(program_memory@.len()) by {
                assert(self.stack@[i] == old(self).stack@[i]);
                lemma_handler_grows(
                    self.stack@[i],
                    old(program_memory)@.len(),
                    program_memory@.len(),
                );
            }
        }
        result
    }

    /// Hands the line that follows the innermost block to that block.
    /// Returns whether the block was closed.
    pub fn exit_block_handler(
        &mut self,
        program_memory: &mut MemoryManager,
        symbol_line: &[Symbol],
    ) -> (result: Result<bool, String>)
        requires
            old(self).well_formed(old(program_memory)@.len()),
        ensures
            BlockCoordinator::block_left(
                *old(self),
                *final(self),
                symbol_line@,
                old(program_memory)@,
                final(program_memory)@,
                result,
            ),
            old(program_memory)@.len() <= final(program_memory)@.len(),
            result is Ok ==> final(self).well_formed(final(program_memory)@.len()),
            result is Ok ==> final(self).stack@.len() + (if result->Ok_0 {
                1int
            } else {
                0int
            }) == old(self).stack@.len(),
    {
        if self.stack.len() == 0 {
            return Err(not_open_error());
        }
        let mut handler = self.stack.pop().unwrap();
        assert(handler.well_formed(old(program_memory)@.len()));
        let result = handler.on_exit(
            program_memory,
            &mut self.reference_stack,
            &mut self.stack_sizes,
            symbol_line,
        );
        let ghost left = handler;
        proof {
            assert forall|i: int| 0 <= i < self.stack@.len() implies (
            #[trigger] self.stack@[i]).well_formed(program_memory@.len()) by {
                assert(self.stack@[i] == old(self).stack@[i]);
                lemma_handler_grows(
                    self.stack@[i],
                    old(program_memory)@.len(),
                    program_memory@.len(),
                );
            }
        }
        let ghost names = self.reference_stack;
        match &result {
            Ok(false) => {
                self.stack.push(handler);
            },
            Ok(true) => {
                if self.reference_stack.get_depth() > 0 {
                    self.reference_stack.remove_handler();
                    proof {
                        lemma_shorter_ok(names, self.reference_stack, program_memory@.len());
                    }
                }
            },
            _ => {},
        }
        proof {
            assert(BlockHandler::exited(
                old(self).stack@.last(),
                left,
                symbol_line@,
                old(self).program(old(program_memory)@),
                Program {
                    memory: program_memory@,
                    stack_sizes: self.stack_sizes@,
                    references: names,
                },
                result,
            ) && (result == Ok::<bool, String>(false) ==> self.stack@ == old(self).stack@.drop_last().push(left))
                && (if result == Ok::<bool, String>(true) {
                scope_closed(names, self.reference_stack)
            } else {
                self.reference_stack == names
            }));
        }
        result
    }

    fn find_absorber(&self) -> (index: Option<usize>)
        ensures
            index matches Some(found) ==> found < self.stack@.len() && absorber(
                self.stack@,
                self.stack@.len() as int,
            ) == Some(found as int) && (self.stack@[found as int] is While
                || self.stack@[found as int] is Function),
            index is None ==> absorber(self.stack@, self.stack@.len() as int) is None,
    {
        let mut below: usize = self.stack.len();
        while below > 0
            invariant
                below <= self.stack@.len(),
                absorber(self.stack@, self.stack@.len() as int) == absorber(
                    self.stack@,
                    below as int,
                ),
            decreases below,
        {
            match self.stack[below - 1].get_block_type() {
                BlockType::While => {
                    return Some(below - 1);
                },
                BlockType::Function => {
                    return Some(below - 1);
                },
                _ => {},
            }
            below = below - 1;
        }
        None
    }

    fn jump_block_handler(&mut self, program_memory: &mut MemoryManager, is_break: bool) -> (result:
        Result<(), String>)
        requires
            old(self).well_formed(old(program_memory)@.len()),
        ensures
            BlockCoordinator::jumped(
                *old(self),
                *final(self),
                is_break,
                old(program_memory)@,
                final(program_memory)@,
                result,
            ),
            old(program_memory)@.len() <= final(program_memory)@.len(),
            final(self).well_formed(final(program_memory)@.len()),
            final(self).stack@.len() == old(self).stack@.len(),
    {
        let index = match self.find_absorber() {
            Some(index) => index,
            None => {
                if is_break {
                    return Err(String::from_str("Break can only be used inside a loop"));
                } else {
                    return Err(String::from_str("Continue can only be used inside a loop"));
                }
            },
        };
        let mut handler = self.stack.remove(index);
        assert(handler.well_formed(old(program_memory)@.len()));
        let result = if is_break {
            handler.on_break(program_memory)
        } else {
            handler.on_continue(program_memory)
        };
        self.stack.insert(index, handler);
        proof {
            assert(self.stack@ =~= old(self).stack@.update(index as int, handler));
            lemma_well_formed_grows(
                self.reference_stack,
                old(program_memory)@.len(),
                program_memory@.len(),
            );
            assert forall|i: int| 0 <= i < self.stack@.len() implies (
            #[trigger] self.stack@[i]).well_formed(program_memory@.len()) by {
                if i != index {
                    assert(self.stack@[i] == old(self).stack@[i]);
                    lemma_handler_grows(
                        self.stack@[i],
                        old(program_memory)@.len(),
                        program_memory@.len(),
                    );
                }
            }
        }
        match result {
            Ok(_) => Ok(()),
            Err(message) => Err(message),
        }
    }

    /// Leaves the innermost loop.
    pub fn break_block_handler(&mut self, program_memory: &mut MemoryManager) -> (result: Result<
        (),
        String,
    >)
        requires
            old(self).well_formed(old(program_memory)@.len()),
        ensures
            BlockCoordinator::jumped(
                *old(self),
                *final(self),
                true,
                old(program_memory)@,
                final(program_memory)@,
                result,
            ),
            old(program_memory)@.len() <= final(program_memory)@.len(),
            final(self).well_formed(final(program_memory)@.len()),
            final(self).stack@.len() == old(self).stack@.len(),
    {
        self.jump_block_handler(program_memory, true)
    }

    /// Starts the next round of the innermost loop.
    pub fn continue_block_handler(&mut self, program_memory: &mut MemoryManager) -> (result:
        Result<(), String>)
        requires
            old(self).well_formed(old(program_memory)@.len()),
        ensures
            BlockCoordinator::jumped(
                *old(self),
                *final(self),
                false,
                old(program_memory)@,
                final(program_memory)@,
                result,
            ),
            old(program_memory)@.len() <= final(program_memory)@.len(),
            final(self).well_formed(final(program_memory)@.len()),
            final(self).stack@.len() == old(self).stack@.len(),
    {
        self.jump_block_handler(program_memory, false)
    }

    /// Leaves a line to the innermost block.
    pub fn handle_line(&mut self, line: &[Symbol]) -> (result: Result<(), String>)
        requires
            old(self).stack@.len() > 0,
        ensures
            result is Ok,
            final(self).stack@ == old(self).stack@.update(
                old(self).stack@.len() - 1,
                old(self).stack@.last().line_handled(),
            ),
            final(self).stack_sizes == old(self).stack_sizes,
            final(self).reference_stack == old(self).reference_stack,
            final(self).skip_sub_block_check == old(self).skip_sub_block_check,
            forall|length: nat| old(self).well_formed(length) ==> final(self).well_formed(length),
    {
        let depth: usize = self.stack.len();
        let result = self.stack[depth - 1].handle_line(line);
        proof {
            assert(self.stack@ =~= old(self).stack@.update(
                old(self).stack@.len() - 1,
                old(self).stack@.last().line_handled(),
            ));
            assert forall|length: nat| old(self).well_formed(length) implies self.well_formed(
                length,
            ) by {
                assert forall|i: int| 0 <= i < self.stack@.len() implies (
                #[trigger] self.stack@[i]).well_formed(length) by {
                    assert(old(self).stack@[i].well_formed(length));
                }
            }
        }
        result
    }

    /// Accounts for a line that has been compiled: unless the line opened
    /// a class, the innermost block accounts for a line inside it.
    pub fn update_sub_block(&mut self) -> (result: Result<(), String>)
        ensures
            final(self).stack_sizes == old(self).stack_sizes,
            final(self).reference_stack == old(self).reference_stack,
            !final(self).skip_sub_block_check,
            old(self).skip_sub_block_check || old(self).stack@.len() == 0 ==> result is Ok
                && final(self).stack@ == old(self).stack@,
            !old(self).skip_sub_block_check && old(self).stack@.len() > 0 ==> final(self).stack@
                == old(self).stack@.update(
                old(self).stack@.len() - 1,
                old(self).stack@.last().sub_block_updated(None).0,
            ) && crate::util::outcome(result) == old(self).stack@.last().sub_block_updated(None).1,
            forall|length: nat| old(self).well_formed(length) ==> final(self).well_formed(length),
    {
        if self.skip_sub_block_check {
            self.skip_sub_block_check = false;
            return Ok(());
        }
        let depth: usize = self.stack.len();
        if depth == 0 {
            return Ok(());
        }
        let result = self.stack[depth - 1].update_sub_block(None);
        proof {
            assert(self.stack@ =~= old(self).stack@.update(
                old(self).stack@.len() - 1,
                old(self).stack@.last().sub_block_updated(None).0,
            ));
            assert forall|length: nat| old(self).well_formed(length) implies self.well_formed(
                length,
            ) by {
                assert forall|i: int| 0 <= i < self.stack@.len() implies (
                #[trigger] self.stack@[i]).well_formed(length) by {
                    assert(old(self).stack@[i].well_formed(length));
                }
            }
        }
        result
    }
}

/// A coordinator that is well formed for a program stays so when the
/// program grows.
pub proof fn lemma_coordinator_grows(coordinator: BlockCoordinator, length: nat, longer: nat)
    requires
        coordinator.well_formed(length),
        length <= longer,
    ensures
        coordinator.well_formed(longer),
{
    lemma_well_formed_grows(coordinator.reference_stack, length, longer);
    assert forall|i: int| 0 <= i < coordinator.stack@.len() implies (
    #[trigger] coordinator.stack@[i]).well_formed(longer) by {
        lemma_handler_grows(coordinator.stack@[i], length, longer);
    }
}

} // verus!
