//! Lines that declare a function.
use vstd::prelude::*;
use crate::compilation::blocks::function_block::FunctionBlock;
use crate::compilation::blocks::{BlockCoordinator, BlockType};
use crate::compilation::lines::line_handler::{untouched, LineHandler};
use crate::compilation::processor::{matched, ProcessingResult};
use crate::lexical_parsing::symbols::{Block, Symbol};
use crate::memory::memory_manager::MemoryManager;


verus! {

/// Recognises the lines that open a function and opens the block.
pub struct FunctionLine {}

/// True where `post`, `after` and `result` are what this kind of line makes
/// of `line`.
pub open spec fn function_line_processed(
    line: Seq<Symbol>,
    pre: BlockCoordinator,
    post: BlockCoordinator,
    before: Seq<u8>,
    after: Seq<u8>,
    result: ProcessingResult,
) -> bool {
    if line.len() > 0 && (line[0] matches Symbol::Block(Block::Function)) {
        !(result is Unmatched) && BlockCoordinator::block_opened(
            pre,
            post,
            BlockType::Function,
            line,
            before,
            after,
            result.outcome(),
        )
    } else {
        result is Unmatched && untouched(pre, post, before, after)
    }
}

impl LineHandler for FunctionLine {
    open spec fn processed(
        line: Seq<Symbol>,
        pre: BlockCoordinator,
        post: BlockCoordinator,
        before: Seq<u8>,
        after: Seq<u8>,
        result: ProcessingResult,
    ) -> bool {
        function_line_processed(line, pre, post, before, after, result)
    }

    fn process_line(
        line: &[Symbol],
        program_memory: &mut MemoryManager,
        block_coordinator: &mut BlockCoordinator,
    ) -> (result: ProcessingResult) {
        if line.len() == 0 {
            return ProcessingResult::Unmatched;
        }
        match &line[0] {
            Symbol::Block(Block::Function) => {
                let handler = FunctionBlock::new_block();
                let result = block_coordinator.add_block_handler(handler, program_memory, line);
                assert(BlockCoordinator::block_added(
                    *old(block_coordinator),
                    *block_coordinator,
                    handler,
                    line@,
                    old(program_memory)@,
                    program_memory@,
                    result,
                ));
                matched(result)
            },
            _ => ProcessingResult::Unmatched,
        }
    }
}

} // verus!
