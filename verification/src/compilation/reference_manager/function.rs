//! Functions: where the body starts, the cells of its parameters and of its
//! return address, and the call sites that wait for the body to end.
use vstd::prelude::*;
use crate::compilation::arithmetic::{
    evaluate_arithmetic_into_type, evaluated_section, ReturnModel,
};
use crate::compilation::blocks::{Output, StackSizes};
use crate::compilation::instructions::{
    immediate_written, lemma_patched_word, unary_written, CopyInstruction, JumpInstruction,
    StackCreateInstruction, COPY_CODE,
};
use crate::compilation::reference_manager::{lemma_well_formed_grows, ReferenceStack};
use crate::lexical_parsing::symbols::Symbol;
use crate::memory::address::{lemma_address_length, Address};
use crate::util::{decimal_text, lemma_le_bytes_len, usize_to_bytes, usize_to_decimal};
use crate::compilation::types::pointer::PointerType;
use crate::compilation::types::Type;
use crate::memory::memory_manager::{patched, MemoryManager};
use crate::util::{usize_at, usize_bytes, USIZE_BYTES};

verus! {

/// A call site that was emitted before the body of its function ended: the
/// instruction that creates the frame of the call, which waits for the size
/// of the frame, and the jump into the function, which waits for the
/// position to enter at.
pub struct IncompleteFunctionCall {
    pub stack_create_instruction: StackCreateInstruction,
    pub jump_instruction: JumpInstruction,
}

impl IncompleteFunctionCall {
    /// True where the frame is created before the jump.
    pub open spec fn well_formed(self) -> bool {
        self.stack_create_instruction.address + 1 + USIZE_BYTES <= self.jump_instruction.address
    }

    /// The position of the first byte of the call site that waits.
    pub open spec fn start(self) -> int {
        self.stack_create_instruction.address as int
    }

    /// The position after the call site.
    pub open spec fn end(self) -> int {
        self.jump_instruction.end()
    }

    /// True where the program holds `stack_size` and `start_position` for
    /// this call site.
    pub open spec fn resolved_in(self, memory: Seq<u8>, stack_size: usize, start_position: usize)
        -> bool {
        &&& usize_at(memory, self.stack_create_instruction.size_position()) == stack_size
        &&& self.jump_instruction.destination_in(memory) == start_position
    }
}

/// True where the call sites follow one another in a program of `length`
/// bytes without overlap.
pub open spec fn calls_in_order(calls: Seq<IncompleteFunctionCall>, length: nat) -> bool {
    &&& forall|i: int| 0 <= i < calls.len() ==> (#[trigger] calls[i]).well_formed() && calls[i].end() <= length
    &&& forall|i: int, j: int|
        0 <= i < j < calls.len() ==> (#[trigger] calls[i]).end() <= (#[trigger] calls[j]).start()
}

/// The program after the first `count` call sites were given the size of
/// the frame and the position to enter at.
pub open spec fn resolved(
    calls: Seq<IncompleteFunctionCall>,
    count: nat,
    memory: Seq<u8>,
    stack_size: usize,
    start_position: usize,
) -> Seq<u8>
    decreases count,
{
    if count == 0 {
        memory
    } else {
        patched(
            patched(
                resolved(calls, (count - 1) as nat, memory, stack_size, start_position),
                calls[count - 1].stack_create_instruction.size_position(),
                usize_bytes(stack_size),
            ),
            calls[count - 1].jump_instruction.destination_position(),
            usize_bytes(start_position),
        )
    }
}

/// A function known to the compiler.
pub struct FunctionReference {
    /// The position of the first instruction of the body.
    pub start_position: usize,
    /// The cell that holds the position to return to.
    pub return_pointer: PointerType,
    /// The parameters in order, each with its name.
    pub parameters: Vec<(String, Type)>,
    /// The call sites emitted so far that wait for the body to end.
    pub incomplete_function_calls: Vec<IncompleteFunctionCall>,
    /// The size of the frame, known once the body has ended.
    pub stack_size: Option<usize>,
}

impl FunctionReference {
    /// True once the body has ended.
    pub open spec fn is_complete(self) -> bool {
        self.stack_size is Some
    }

    /// True where the return address and every parameter have a cell, and
    /// the call sites that wait lie in order inside a program of `length`
    /// bytes.
    pub open spec fn well_formed(self, length: nat) -> bool {
        &&& self.return_pointer.address is Some
        &&& !(self.return_pointer.address->0 is Immediate)
        &&& forall|i: int|
            0 <= i < self.parameters@.len() ==> (#[trigger] self.parameters@[i]).1.is_allocated()
        &&& calls_in_order(self.incomplete_function_calls@, length)
    }

    /// True where `call` can be added to the call sites that wait: it lies
    /// after them.
    pub open spec fn accepts(self, call: IncompleteFunctionCall) -> bool {
        &&& call.well_formed()
        &&& forall|i: int|
            0 <= i < self.incomplete_function_calls@.len() ==> (
            #[trigger] self.incomplete_function_calls@[i]).end() <= call.start()
    }

    /// A function whose body starts at `start_position`.
    pub fn new(
        start_position: usize,
        return_pointer: PointerType,
        parameters: Vec<(String, Type)>,
        stack_size: Option<usize>,
    ) -> (function: Self)
        ensures
            function.start_position == start_position,
            function.return_pointer == return_pointer,
            function.parameters == parameters,
            function.incomplete_function_calls@.len() == 0,
            function.stack_size == stack_size,
    {
        FunctionReference {
            start_position,
            return_pointer,
            parameters,
            incomplete_function_calls: Vec::new(),
            stack_size,
        }
    }

    /// Adds a call site to those that wait for the body to end.
    pub fn add_incomplete_function_call(&mut self, call: IncompleteFunctionCall)
        ensures
            final(self).incomplete_function_calls@ == old(self).incomplete_function_calls@.push(
                call,
            ),
            final(self).start_position == old(self).start_position,
            final(self).return_pointer == old(self).return_pointer,
            final(self).parameters == old(self).parameters,
            final(self).stack_size == old(self).stack_size,
    {
        self.incomplete_function_calls.push(call);
    }

    /// Records the size of the frame now that the body has ended, and gives
    /// every call site that waited this size and the position to enter at.
    /// No call site waits afterwards.
    pub fn set_stack_size_and_complete(
        &mut self,
        stack_size: usize,
        program_memory: &mut MemoryManager,
    )
        requires
            calls_in_order(old(self).incomplete_function_calls@, old(program_memory)@.len()),
        ensures
            final(self).stack_size == Some(stack_size),
            final(self).incomplete_function_calls@.len() == 0,
            final(self).start_position == old(self).start_position,
            final(self).return_pointer == old(self).return_pointer,
            final(self).parameters == old(self).parameters,
            final(program_memory)@ == resolved(
                old(self).incomplete_function_calls@,
                old(self).incomplete_function_calls@.len(),
                old(program_memory)@,
                stack_size,
                old(self).start_position,
            ),
            final(program_memory)@.len() == old(program_memory)@.len(),
            forall|i: int|
                0 <= i < old(self).incomplete_function_calls@.len() ==> (
                #[trigger] old(self).incomplete_function_calls@[i]).resolved_in(
                    final(program_memory)@,
                    stack_size,
                    old(self).start_position,
                ),
    {
        let ghost calls = self.incomplete_function_calls@;
        let ghost start = self.start_position;
        let mut i: usize = 0;
        while i < self.incomplete_function_calls.len()
            invariant
                i <= calls.len(),
                self.incomplete_function_calls@ == calls,
                self.start_position == start,
                self.return_pointer == old(self).return_pointer,
                self.parameters == old(self).parameters,
                calls_in_order(calls, old(program_memory)@.len()),
                program_memory@.len() == old(program_memory)@.len(),
                program_memory@ == resolved(calls, i as nat, old(program_memory)@, stack_size, start),
                forall|k: int|
                    0 <= k < i ==> (#[trigger] calls[k]).resolved_in(
                        program_memory@,
                        stack_size,
                        start,
                    ),
            decreases calls.len() - i,
        {
            let ghost before = program_memory@;
            let call = &self.incomplete_function_calls[i];
            assert(calls[i as int].well_formed());
            call.stack_create_instruction.set_stack_size(stack_size, program_memory);
            let ghost middle = program_memory@;
            call.jump_instruction.set_destination(self.start_position, program_memory);
            proof {
                let size_position = calls[i as int].stack_create_instruction.size_position();
                let destination_position = calls[i as int].jump_instruction.destination_position();
                lemma_patched_word(middle, destination_position, start, size_position);
                assert forall|k: int| 0 <= k < i implies (#[trigger] calls[k]).resolved_in(
                    program_memory@,
                    stack_size,
                    start,
                ) by {
                    assert(calls[k].well_formed());
                    assert(calls[k].end() <= calls[i as int].start());
                    let other_size = calls[k].stack_create_instruction.size_position();
                    let other_destination = calls[k].jump_instruction.destination_position();
                    lemma_patched_word(before, size_position, stack_size, other_size);
                    lemma_patched_word(before, size_position, stack_size, other_destination);
                    lemma_patched_word(middle, destination_position, start, other_size);
                    lemma_patched_word(middle, destination_position, start, other_destination);
                }
            }
            i = i + 1;
        }
        self.incomplete_function_calls = Vec::new();
        self.stack_size = Some(stack_size);
    }
}

/// What storing the arguments from `from` on in the cells of the parameters
/// produces.
pub open spec fn arguments_evaluated(
    arguments: Seq<Vec<Symbol>>,
    parameters: Seq<(String, Type)>,
    from: int,
    reference_stack: ReferenceStack,
    before: Output,
) -> Result<Output, Seq<char>>
    decreases arguments.len() - from,
{
    if from < 0 || from >= arguments.len() {
        Ok(before)
    } else {
        match evaluated_section(
            arguments[from]@,
            ReturnModel::IntoType(parameters[from].1),
            reference_stack,
            before,
        ) {
            Err(message) => Err(message),
            Ok(evaluated) => arguments_evaluated(
                arguments,
                parameters,
                from + 1,
                reference_stack,
                evaluated.output,
            ),
        }
    }
}

/// The message for a call with another number of arguments than the
/// function has parameters.
pub open spec fn argument_count_message(expected: nat, received: nat) -> Seq<char> {
    "Incorrect number of arguments (expected "@ + decimal_text(expected as int) + ", received "@
        + decimal_text(received as int) + ")"@
}

/// The message for a program too long for positions to be machine words.
pub open spec fn program_too_long_message() -> Seq<char> {
    "The program is too long"@
}

impl FunctionReference {
    /// The size of the frame as far as it is known: 0 until the body has
    /// ended.
    pub open spec fn frame_size(self) -> usize {
        match self.stack_size {
            Some(size) => size,
            None => 0,
        }
    }

    /// The instruction that stores the position to return to in the cell of
    /// the return address.
    pub open spec fn return_copy_bytes(self, return_target: usize) -> Seq<u8> {
        unary_written(
            COPY_CODE,
            immediate_written(usize_bytes(return_target)),
            self.return_pointer.address->0.bytes(),
            USIZE_BYTES,
        )
    }

    /// The position that a call returns to when the arguments have been
    /// stored in a program of `length` bytes: that after the instruction
    /// that stores this position and the jump into the function.
    pub open spec fn return_target(self, length: nat) -> nat {
        length + self.return_copy_bytes(0).len() + JumpInstruction::bytes(0).len()
    }

    /// What a call of the function produces: the instruction that creates
    /// the frame, with the size of the frame as far as it is known; the
    /// arguments stored in the cells of the parameters, in order; the
    /// position to return to stored in the cell of the return address; and
    /// the jump to the start of the function.
    pub open spec fn called(
        self,
        arguments: Seq<Vec<Symbol>>,
        reference_stack: ReferenceStack,
        before: Output,
    ) -> Result<Output, Seq<char>> {
        if arguments.len() != self.parameters@.len() {
            Err(argument_count_message(self.parameters@.len(), arguments.len()))
        } else {
            match arguments_evaluated(
                arguments,
                self.parameters@,
                0,
                reference_stack,
                Output {
                    memory: before.memory + StackCreateInstruction::bytes(self.frame_size()),
                    stack_sizes: before.stack_sizes,
                },
            ) {
                Err(message) => Err(message),
                Ok(output) => if self.return_target(output.memory.len()) > usize::MAX {
                    Err(program_too_long_message())
                } else {
                    Ok(
                        Output {
                            memory: output.memory + self.return_copy_bytes(
                                self.return_target(output.memory.len()) as usize,
                            ) + JumpInstruction::bytes(self.start_position),
                            stack_sizes: output.stack_sizes,
                        },
                    )
                },
            }
        }
    }

    /// Emits a call of the function with the given arguments. Where the
    /// body of the function has not ended yet, returns the call site, which
    /// waits for the size of the frame.
    pub fn call(
        &self,
        arguments: &[Vec<Symbol>],
        program_memory: &mut MemoryManager,
        reference_stack: &ReferenceStack,
        stack_sizes: &mut StackSizes,
    ) -> (result: Result<Option<IncompleteFunctionCall>, String>)
        requires
            self.well_formed(old(program_memory)@.len()),
            reference_stack.well_formed(old(program_memory)@.len()),
        ensures
            old(program_memory)@.len() <= final(program_memory)@.len(),
            final(stack_sizes)@.len() == old(stack_sizes)@.len(),
            match self.called(
                arguments@,
                *reference_stack,
                Output { memory: old(program_memory)@, stack_sizes: old(stack_sizes)@ },
            ) {
                Err(message) => result is Err && result->Err_0@ == message,
                Ok(output) => {
                    &&& result is Ok
                    &&& final(program_memory)@ == output.memory
                    &&& final(stack_sizes)@ == output.stack_sizes
                    &&& self.is_complete() ==> result->Ok_0 is None
                    &&& !self.is_complete() ==> {
                        &&& result->Ok_0 is Some
                        &&& result->Ok_0->0.well_formed()
                        &&& result->Ok_0->0.start() == old(program_memory)@.len()
                        &&& result->Ok_0->0.end() == final(program_memory)@.len()
                    }
                },
            },
    {
        if arguments.len() != self.parameters.len() {
            let mut message = String::from_str("Incorrect number of arguments (expected ");
            message.append(usize_to_decimal(self.parameters.len()).as_str());
            message.append(", received ");
            message.append(usize_to_decimal(arguments.len()).as_str());
            message.append(")");
            return Err(message);
        }
        let frame_size: usize = match self.stack_size {
            Some(size) => size,
            None => 0,
        };
        let stack_create_instruction = StackCreateInstruction::new_alloc(
            program_memory,
            frame_size,
        );
        let ghost first = Output { memory: program_memory@, stack_sizes: stack_sizes@ };
        let mut i: usize = 0;
        while i < arguments.len()
            invariant
                i <= arguments@.len(),
                arguments@.len() == self.parameters@.len(),
                forall|k: int|
                    0 <= k < self.parameters@.len() ==> (
                    #[trigger] self.parameters@[k]).1.is_allocated(),
                reference_stack.well_formed(old(program_memory)@.len()),
                old(program_memory)@.len() + 1 + USIZE_BYTES <= program_memory@.len(),
                first == (Output {
                    memory: old(program_memory)@ + StackCreateInstruction::bytes(
                        self.frame_size(),
                    ),
                    stack_sizes: old(stack_sizes)@,
                }),
                stack_sizes@.len() == old(stack_sizes)@.len(),
                arguments_evaluated(arguments@, self.parameters@, 0, *reference_stack, first)
                    == arguments_evaluated(
                    arguments@,
                    self.parameters@,
                    i as int,
                    *reference_stack,
                    Output { memory: program_memory@, stack_sizes: stack_sizes@ },
                ),
            decreases arguments@.len() - i,
        {
            proof {
                lemma_well_formed_grows(
                    *reference_stack,
                    old(program_memory)@.len(),
                    program_memory@.len(),
                );
            }
            assert(self.parameters@[i as int].1.is_allocated());
            let ghost current = Output { memory: program_memory@, stack_sizes: stack_sizes@ };
            assert(arguments_evaluated(
                arguments@,
                self.parameters@,
                i as int,
                *reference_stack,
                current,
            ) == match evaluated_section(
                arguments@[i as int]@,
                ReturnModel::IntoType(self.parameters@[i as int].1),
                *reference_stack,
                current,
            ) {
                Err(message) => Err(message),
                Ok(evaluated) => arguments_evaluated(
                    arguments@,
                    self.parameters@,
                    i + 1,
                    *reference_stack,
                    evaluated.output,
                ),
            });
            match evaluate_arithmetic_into_type(
                arguments[i].as_slice(),
                &self.parameters[i].1,
                program_memory,
                reference_stack,
                stack_sizes,
            ) {
                Ok(_) => {},
                Err(message) => {
                    return Err(message);
                },
            }
            i = i + 1;
        }
        let return_address = self.return_pointer.get_address();
        proof {
            lemma_address_length(*return_address);
            lemma_le_bytes_len(0, USIZE_BYTES as nat);
            crate::util::lemma_word_width();
            assert(self.return_copy_bytes(0).len() == 3 + 3 * USIZE_BYTES);
            assert(JumpInstruction::bytes(0).len() == 1 + USIZE_BYTES);
        }
        let call_length: usize = 4 + 4 * USIZE_BYTES;
        let position: usize = program_memory.position();
        if position > usize::MAX - call_length {
            return Err(String::from_str("The program is too long"));
        }
        let return_target: usize = position + call_length;
        let target = Address::Immediate(usize_to_bytes(return_target));
        assert(target.bytes() =~= immediate_written(usize_bytes(return_target)));
        CopyInstruction::new_alloc(program_memory, &target, return_address, USIZE_BYTES);
        let jump_instruction = JumpInstruction::new_alloc(program_memory, self.start_position);
        if self.stack_size.is_none() {
            Ok(Some(IncompleteFunctionCall { stack_create_instruction, jump_instruction }))
        } else {
            Ok(None)
        }
    }
}

/// Call sites that lie in order inside a program lie in order inside a
/// longer one.
pub proof fn lemma_calls_in_order_grow(
    calls: Seq<IncompleteFunctionCall>,
    length: nat,
    longer: nat,
)
    requires
        calls_in_order(calls, length),
        length <= longer,
    ensures
        calls_in_order(calls, longer),
{
}

} // verus!
