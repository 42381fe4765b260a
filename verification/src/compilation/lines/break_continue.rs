//! Lines that leave a loop or start its next round.
use vstd::prelude::*;
use crate::compilation::blocks::BlockCoordinator;
use crate::compilation::lines::line_handler::{untouched, LineHandler};
use crate::compilation::processor::{matched, ProcessingResult};
use crate::lexical_parsing::symbols::{Keyword, Symbol};
use crate::memory::memory_manager::MemoryManager;

verus! {

/// Recognises and compiles `break` and `continue`.
pub struct BreakContinueLine {}

/// True of the lines that start with `break` or `continue`.
pub open spec fn jumps(line: Seq<Symbol>) -> bool {
    line.len() > 0 && (line[0] matches Symbol::Keyword(keyword) && (keyword == Keyword::Break
        || keyword == Keyword::Continue))
}

/// True where `post`, `after` and `result` are what this kind of line makes
/// of `line`.
pub open spec fn break_continue_processed(
    line: Seq<Symbol>,
    pre: BlockCoordinator,
    post: BlockCoordinator,
    before: Seq<u8>,
    after: Seq<u8>,
    result: ProcessingResult,
) -> bool {
    if !jumps(line) {
        result is Unmatched && untouched(pre, post, before, after)
    } else {
        !(result is Unmatched) && BlockCoordinator::jumped(
            pre,
            post,
            line[0] matches Symbol::Keyword(Keyword::Break),
            before,
            after,
            result.outcome(),
        )
    }
}

impl LineHandler for BreakContinueLine {
    open spec fn processed(
        line: Seq<Symbol>,
        pre: BlockCoordinator,
        post: BlockCoordinator,
        before: Seq<u8>,
        after: Seq<u8>,
        result: ProcessingResult,
    ) -> bool {
        break_continue_processed(line, pre, post, before, after, result)
    }

    fn process_line(
        line: &[Symbol],
        program_memory: &mut MemoryManager,
        block_coordinator: &mut BlockCoordinator,
    ) -> (result: ProcessingResult) {
        if line.len() == 0 {
            return ProcessingResult::Unmatched;
        }
        match &line[0] {
            Symbol::Keyword(Keyword::Break) => matched(
                block_coordinator.break_block_handler(program_memory),
            ),
            Symbol::Keyword(Keyword::Continue) => matched(
                block_coordinator.continue_block_handler(program_memory),
            ),
            _ => ProcessingResult::Unmatched,
        }
    }
}

} // verus!
