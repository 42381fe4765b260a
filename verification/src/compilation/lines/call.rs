//! Lines that call a function.
use vstd::prelude::*;
use crate::compilation::blocks::{lemma_handler_grows, BlockCoordinator, Output};
use crate::compilation::instructions::{JumpInstruction, StackCreateInstruction};
use crate::compilation::lines::line_handler::{untouched, LineHandler};
use crate::compilation::processor::ProcessingResult;
use crate::compilation::reference_manager::function::IncompleteFunctionCall;
use crate::compilation::reference_manager::{
    cannot_register_message, lemma_lookup_ok, lemma_visible_location,
    lemma_well_formed_grows, not_a_function_message, not_found_message, reference_in,
    same_but_reference, Reference,
};
use crate::lexical_parsing::symbols::Symbol;
use crate::memory::memory_manager::MemoryManager;
use crate::util::USIZE_BYTES;

verus! {

/// Recognises and compiles calls: a name and a list of arguments.
pub struct CallLine {}

pub open spec fn call_followed_message() -> Seq<char> {
    "A call can't be followed by anything on the same line"@
}

/// A call emits what the function says a call of it produces. Where
/// the body of the function has not ended yet, the call site is added
/// to those that wait for it with the function.
pub open spec fn call_processed(
    line: Seq<Symbol>,
    pre: BlockCoordinator,
    post: BlockCoordinator,
    before: Seq<u8>,
    after: Seq<u8>,
    result: ProcessingResult,
) -> bool {
    if line.len() < 2 || !(line[0] is Name) || !(line[1] is List) {
        result is Unmatched && untouched(pre, post, before, after)
    } else if line.len() > 2 {
        result is Failure && result->Failure_0@ == call_followed_message() && untouched(
            pre,
            post,
            before,
            after,
        )
    } else {
        let name = line[0]->Name_0@;
        match pre.reference_stack.lookup(name) {
            None => result is Failure && result->Failure_0@ == not_found_message(name)
                && untouched(pre, post, before, after),
            Some(Reference::Function(function)) => match function.called(
                line[1]->List_0@,
                pre.reference_stack,
                Output { memory: before, stack_sizes: pre.stack_sizes@ },
            ) {
                Err(message) => result is Failure && result->Failure_0@ == message,
                Ok(output) => if !function.is_complete() && name.len() > 2 {
                    result is Failure && result->Failure_0@ == cannot_register_message(name)
                } else {
                    &&& result is Success
                    &&& after == output.memory
                    &&& post.stack_sizes@ == output.stack_sizes
                    &&& post.stack@ == pre.stack@
                    &&& post.skip_sub_block_check == pre.skip_sub_block_check
                    &&& function.is_complete() ==> post.reference_stack == pre.reference_stack
                    &&& !function.is_complete() ==> {
                        let location = pre.reference_stack.location_of(name, 0)->0;
                        &&& post.reference_stack.reference_depth_limit
                            == pre.reference_stack.reference_depth_limit
                        &&& same_but_reference(
                            pre.reference_stack.scopes(),
                            post.reference_stack.scopes(),
                            location,
                        )
                        &&& reference_in(
                            post.reference_stack.scopes(),
                            location,
                        ) matches Reference::Function(waiting)
                        &&& waiting.incomplete_function_calls@
                            == function.incomplete_function_calls@.push(
                            IncompleteFunctionCall {
                                stack_create_instruction: StackCreateInstruction {
                                    address: before.len() as usize,
                                },
                                jump_instruction: JumpInstruction {
                                    address: (after.len() - 1 - USIZE_BYTES) as usize,
                                },
                            },
                        )
                        &&& waiting.start_position == function.start_position
                        &&& waiting.return_pointer == function.return_pointer
                        &&& waiting.parameters == function.parameters
                        &&& waiting.stack_size == function.stack_size
                    }
                },
            },
            Some(_) => result is Failure && result->Failure_0@ == not_a_function_message()
                && untouched(pre, post, before, after),
        }
    }
}

impl LineHandler for CallLine {
    open spec fn processed(
        line: Seq<Symbol>,
        pre: BlockCoordinator,
        post: BlockCoordinator,
        before: Seq<u8>,
        after: Seq<u8>,
        result: ProcessingResult,
    ) -> bool {
        call_processed(line, pre, post, before, after, result)
    }

    fn process_line(
        line: &[Symbol],
        program_memory: &mut MemoryManager,
        block_coordinator: &mut BlockCoordinator,
    ) -> (result: ProcessingResult) {
        if line.len() < 2 {
            return ProcessingResult::Unmatched;
        }
        let name = match &line[0] {
            Symbol::Name(name) => name,
            _ => {
                return ProcessingResult::Unmatched;
            },
        };
        let args = match &line[1] {
            Symbol::List(args) => args,
            _ => {
                return ProcessingResult::Unmatched;
            },
        };
        if line.len() > 2 {
            return ProcessingResult::Failure(
                String::from_str("A call can't be followed by anything on the same line"),
            );
        }
        let reference = match block_coordinator.reference_stack.get_reference(name.as_slice()) {
            Ok(reference) => reference,
            Err(message) => {
                return ProcessingResult::Failure(message);
            },
        };
        proof {
            lemma_lookup_ok(block_coordinator.reference_stack, name@, old(program_memory)@.len());
        }
        let function_reference = match reference.get_function_ref() {
            Ok(function_reference) => function_reference,
            Err(message) => {
                return ProcessingResult::Failure(message);
            },
        };
        let ghost function = *function_reference;
        let incomplete_function_call = match function_reference.call(
            args.as_slice(),
            program_memory,
            &block_coordinator.reference_stack,
            &mut block_coordinator.stack_sizes,
        ) {
            Ok(incomplete_function_call) => incomplete_function_call,
            Err(message) => {
                return ProcessingResult::Failure(message);
            },
        };
        proof {
            lemma_well_formed_grows(
                block_coordinator.reference_stack,
                old(program_memory)@.len(),
                program_memory@.len(),
            );
            assert forall|i: int| 0 <= i < block_coordinator.stack@.len() implies (
            #[trigger] block_coordinator.stack@[i]).well_formed(program_memory@.len()) by {
                lemma_handler_grows(
                    block_coordinator.stack@[i],
                    old(program_memory)@.len(),
                    program_memory@.len(),
                );
            }
        }
        if let Some(incomplete_function_call) = incomplete_function_call {
            let location = match block_coordinator.reference_stack.locate(name.as_slice()) {
                Some(location) => location,
                None => {
                    proof {
                        if name@.len() <= 2 {
                            lemma_visible_location(old(block_coordinator).reference_stack, name@);
                        }
                    }
                    let mut message = String::from_str("Reference '");
                    message.append(
                        crate::compilation::reference_manager::dotted_name(name.as_slice()).as_str(),
                    );
                    message.append("' cannot be registered");
                    return ProcessingResult::Failure(message);
                },
            };
            proof {
                lemma_visible_location(old(block_coordinator).reference_stack, name@);
                assert(function.accepts(incomplete_function_call));
            }
            block_coordinator.reference_stack.add_incomplete_function_call(
                &location,
                incomplete_function_call,
            );
            proof {
                assert(reference_in(block_coordinator.reference_stack.scopes(), location)
                    == block_coordinator.reference_stack.reference_at(location)) by {
                    assert(block_coordinator.reference_stack.scopes()[location.handler as int]
                        == block_coordinator.reference_stack.stack@[location.handler as int]@);
                }
            }
        }
        ProcessingResult::Success
    }
}

} // verus!
