//! Lines that assign to a variable.
use vstd::prelude::*;
use crate::compilation::arithmetic::{assigned, evaluate_assignment, ReturnModel};
use crate::compilation::blocks::{lemma_coordinator_grows, BlockCoordinator, Output};
use crate::compilation::lines::line_handler::{untouched, LineHandler};
use crate::compilation::processor::{matched, ProcessingResult};
use crate::compilation::reference_manager::{
    lemma_lookup_ok, not_a_variable_message, not_found_message, Reference,
};
use crate::lexical_parsing::symbols::Symbol;
use crate::memory::memory_manager::MemoryManager;

verus! {

/// Recognises and compiles assignments: a name, an assignment operator and
/// an expression.
pub struct VariableAssignmentLine {}

pub open spec fn value_expected_message() -> Seq<char> {
    "Name and Assigner must be followed by a value"@
}

/// True where `post`, `after` and `result` are what this kind of line makes
/// of `line`.
pub open spec fn variable_assignment_processed(
    line: Seq<Symbol>,
    pre: BlockCoordinator,
    post: BlockCoordinator,
    before: Seq<u8>,
    after: Seq<u8>,
    result: ProcessingResult,
) -> bool {
    if line.len() < 2 || !(line[0] is Name) || !(line[1] is Assigner) {
        result is Unmatched && untouched(pre, post, before, after)
    } else if line.len() < 3 {
        result is Failure && result->Failure_0@ == value_expected_message() && untouched(
            pre,
            post,
            before,
            after,
        )
    } else {
        match pre.reference_stack.lookup(line[0]->Name_0@) {
            None => result is Failure && result->Failure_0@ == not_found_message(
                line[0]->Name_0@,
            ) && untouched(pre, post, before, after),
            Some(Reference::Variable(variable)) => match assigned(
                line[1]->Assigner_0,
                line[0],
                line.subrange(2, line.len() as int),
                ReturnModel::IntoType(variable),
                pre.reference_stack,
                Output { memory: before, stack_sizes: pre.stack_sizes@ },
            ) {
                Err(message) => result is Failure && result->Failure_0@ == message,
                Ok(evaluated) => {
                    &&& result is Success
                    &&& after == evaluated.output.memory
                    &&& post.stack_sizes@ == evaluated.output.stack_sizes
                    &&& post.reference_stack == pre.reference_stack
                    &&& post.stack@ == pre.stack@
                    &&& post.skip_sub_block_check == pre.skip_sub_block_check
                },
            },
            Some(_) => result is Failure && result->Failure_0@ == not_a_variable_message()
                && untouched(pre, post, before, after),
        }
    }
}

impl LineHandler for VariableAssignmentLine {
    open spec fn processed(
        line: Seq<Symbol>,
        pre: BlockCoordinator,
        post: BlockCoordinator,
        before: Seq<u8>,
        after: Seq<u8>,
        result: ProcessingResult,
    ) -> bool {
        variable_assignment_processed(line, pre, post, before, after, result)
    }

    fn process_line(
        line: &[Symbol],
        program_memory: &mut MemoryManager,
        block_coordinator: &mut BlockCoordinator,
    ) -> (result: ProcessingResult) {
        if line.len() < 2 {
            return ProcessingResult::Unmatched;
        }
        let name = match &line[0] {
            Symbol::Name(name) => name,
            _ => {
                return ProcessingResult::Unmatched;
            },
        };
        let assigner = match &line[1] {
            Symbol::Assigner(assigner) => assigner,
            _ => {
                return ProcessingResult::Unmatched;
            },
        };
        if line.len() < 3 {
            return ProcessingResult::Failure(
                String::from_str("Name and Assigner must be followed by a value"),
            );
        }
        let reference = match block_coordinator.reference_stack.get_reference(name.as_slice()) {
            Ok(reference) => reference,
            Err(message) => {
                return ProcessingResult::Failure(message);
            },
        };
        proof {
            lemma_lookup_ok(block_coordinator.reference_stack, name@, old(program_memory)@.len());
        }
        let variable = match reference.get_variable_ref() {
            Ok(variable) => variable,
            Err(message) => {
                return ProcessingResult::Failure(message);
            },
        };
        let value = vstd::slice::slice_subrange(line, 2, line.len());
        let result = evaluate_assignment(
            assigner,
            &line[0],
            value,
            variable,
            program_memory,
            &block_coordinator.reference_stack,
            &mut block_coordinator.stack_sizes,
        );
        proof {
            lemma_coordinator_grows(
                *old(block_coordinator),
                old(program_memory)@.len(),
                program_memory@.len(),
            );
        }
        matched(result)
    }
}

} // verus!
