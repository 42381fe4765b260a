//! Lines that write the state of the machine out.
use vstd::prelude::*;
use crate::compilation::blocks::{lemma_coordinator_grows, BlockCoordinator};
use crate::compilation::instructions::DumpInstruction;
use crate::compilation::lines::line_handler::{untouched, LineHandler};
use crate::compilation::processor::ProcessingResult;
use crate::lexical_parsing::symbols::{Keyword, Symbol};
use crate::memory::memory_manager::MemoryManager;

verus! {

/// Recognises and compiles `dump`.
pub struct DumpLine {}

pub open spec fn dump_followed_message() -> Seq<char> {
    "Dump cannot be followed by anything else"@
}

/// True where `post`, `after` and `result` are what this kind of line makes
/// of `line`.
pub open spec fn dump_processed(
    line: Seq<Symbol>,
    pre: BlockCoordinator,
    post: BlockCoordinator,
    before: Seq<u8>,
    after: Seq<u8>,
    result: ProcessingResult,
) -> bool {
    if line.len() == 0 || !(line[0] matches Symbol::Keyword(Keyword::Dump)) {
        result is Unmatched && untouched(pre, post, before, after)
    } else if line.len() > 1 {
        result is Failure && result->Failure_0@ == dump_followed_message() && untouched(
            pre,
            post,
            before,
            after,
        )
    } else {
        result is Success && post == pre && after == before + DumpInstruction::bytes()
    }
}

impl LineHandler for DumpLine {
    open spec fn processed(
        line: Seq<Symbol>,
        pre: BlockCoordinator,
        post: BlockCoordinator,
        before: Seq<u8>,
        after: Seq<u8>,
        result: ProcessingResult,
    ) -> bool {
        dump_processed(line, pre, post, before, after, result)
    }

    fn process_line(
        line: &[Symbol],
        program_memory: &mut MemoryManager,
        block_coordinator: &mut BlockCoordinator,
    ) -> (result: ProcessingResult) {
        if line.len() == 0 {
            return ProcessingResult::Unmatched;
        }
        match &line[0] {
            Symbol::Keyword(Keyword::Dump) => {},
            _ => {
                return ProcessingResult::Unmatched;
            },
        }
        if line.len() > 1 {
            return ProcessingResult::Failure(
                String::from_str("Dump cannot be followed by anything else"),
            );
        }
        DumpInstruction::new_alloc(program_memory);
        proof {
            lemma_coordinator_grows(
                *block_coordinator,
                old(program_memory)@.len(),
                program_memory@.len(),
            );
        }
        ProcessingResult::Success
    }
}

} // verus!
