//! Lines that show the bytes of a variable.
use vstd::prelude::*;
use crate::compilation::blocks::{lemma_coordinator_grows, BlockCoordinator};
use crate::compilation::instructions::{ViewMemoryDecInstruction, ViewMemoryInstruction};
use crate::compilation::lines::line_handler::{untouched, LineHandler};
use crate::compilation::processor::ProcessingResult;
use crate::compilation::reference_manager::{
    lemma_lookup_ok, not_a_variable_message, not_found_message, Reference,
};
use crate::lexical_parsing::symbols::{Keyword, Symbol};
use crate::memory::memory_manager::MemoryManager;

verus! {

/// Recognises and compiles `viewmem` and `viewmemdec`.
pub struct ViewMemoryLine {}

pub open spec fn view_memory_format_message() -> Seq<char> {
    "viewmem must be followed by a variable"@
}

/// True of the lines that start with `viewmem` or `viewmemdec`.
pub open spec fn views_memory(line: Seq<Symbol>) -> bool {
    line.len() > 0 && (line[0] matches Symbol::Keyword(keyword) && (keyword == Keyword::ViewMemory
        || keyword == Keyword::ViewMemoryDecimal))
}

/// True where `post`, `after` and `result` are what this kind of line makes
/// of `line`.
pub open spec fn view_memory_processed(
    line: Seq<Symbol>,
    pre: BlockCoordinator,
    post: BlockCoordinator,
    before: Seq<u8>,
    after: Seq<u8>,
    result: ProcessingResult,
) -> bool {
    if !views_memory(line) {
        result is Unmatched && untouched(pre, post, before, after)
    } else if line.len() != 2 || !(line[1] is Name) {
        result is Failure && result->Failure_0@ == view_memory_format_message() && untouched(
            pre,
            post,
            before,
            after,
        )
    } else {
        match pre.reference_stack.lookup(line[1]->Name_0@) {
            None => result is Failure && result->Failure_0@ == not_found_message(
                line[1]->Name_0@,
            ) && untouched(pre, post, before, after),
            Some(Reference::Variable(variable)) => result is Success && post == pre && after
                == before + (if line[0] matches Symbol::Keyword(Keyword::ViewMemoryDecimal) {
                ViewMemoryDecInstruction::bytes(variable.address()->0)
            } else {
                ViewMemoryInstruction::bytes(variable.address()->0)
            }),
            Some(_) => result is Failure && result->Failure_0@ == not_a_variable_message()
                && untouched(pre, post, before, after),
        }
    }
}

impl LineHandler for ViewMemoryLine {
    open spec fn processed(
        line: Seq<Symbol>,
        pre: BlockCoordinator,
        post: BlockCoordinator,
        before: Seq<u8>,
        after: Seq<u8>,
        result: ProcessingResult,
    ) -> bool {
        view_memory_processed(line, pre, post, before, after, result)
    }

    fn process_line(
        line: &[Symbol],
        program_memory: &mut MemoryManager,
        block_coordinator: &mut BlockCoordinator,
    ) -> (result: ProcessingResult) {
        if line.len() == 0 {
            return ProcessingResult::Unmatched;
        }
        let dec = match &line[0] {
            Symbol::Keyword(Keyword::ViewMemory) => false,
            Symbol::Keyword(Keyword::ViewMemoryDecimal) => true,
            _ => {
                return ProcessingResult::Unmatched;
            },
        };
        if line.len() != 2 {
            return ProcessingResult::Failure(
                String::from_str("viewmem must be followed by a variable"),
            );
        }
        let name = match &line[1] {
            Symbol::Name(name) => name,
            _ => {
                return ProcessingResult::Failure(
                    String::from_str("viewmem must be followed by a variable"),
                );
            },
        };
        let reference = match block_coordinator.get_reference(name.as_slice()) {
            Ok(reference) => reference,
            Err(message) => {
                return ProcessingResult::Failure(message);
            },
        };
        proof {
            lemma_lookup_ok(block_coordinator.reference_stack, name@, old(program_memory)@.len());
        }
        let variable = match reference.get_variable_ref() {
            Ok(variable) => variable,
            Err(message) => {
                return ProcessingResult::Failure(message);
            },
        };
        if dec {
            ViewMemoryDecInstruction::new_alloc(program_memory, variable.get_address());
        } else {
            ViewMemoryInstruction::new_alloc(program_memory, variable.get_address());
        }
        proof {
            lemma_coordinator_grows(
                *block_coordinator,
                old(program_memory)@.len(),
                program_memory@.len(),
            );
        }
        ProcessingResult::Success
    }
}

} // verus!
