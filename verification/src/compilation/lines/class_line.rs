//! Lines that declare a class.
use vstd::prelude::*;
use crate::compilation::blocks::class_block::ClassBlock;
use crate::compilation::blocks::{BlockCoordinator, BlockType};
use crate::compilation::lines::line_handler::{untouched, LineHandler};
use crate::compilation::processor::{matched, ProcessingResult};
use crate::lexical_parsing::symbols::{Block, Symbol};
use crate::memory::memory_manager::MemoryManager;


verus! {

/// Recognises the lines that open a class and opens the block.
pub struct ClassLine {}

/// True where `post`, `after` and `result` are what this kind of line makes
/// of `line`.
pub open spec fn class_line_processed(
    line: Seq<Symbol>,
    pre: BlockCoordinator,
    post: BlockCoordinator,
    before: Seq<u8>,
    after: Seq<u8>,
    result: ProcessingResult,
) -> bool {
    if line.len() > 0 && (line[0] matches Symbol::Block(Block::Class)) {
        !(result is Unmatched) && BlockCoordinator::block_opened(
            pre,
            (BlockCoordinator {
                stack: post.stack,
                stack_sizes: post.stack_sizes,
                reference_stack: post.reference_stack,
                skip_sub_block_check: pre.skip_sub_block_check,
            }),
            BlockType::Class,
            line,
            before,
            after,
            result.outcome(),
        )
            && (result is Success ==> post.skip_sub_block_check)
    } else {
        result is Unmatched && untouched(pre, post, before, after)
    }
}

impl LineHandler for ClassLine {
    open spec fn processed(
        line: Seq<Symbol>,
        pre: BlockCoordinator,
        post: BlockCoordinator,
        before: Seq<u8>,
        after: Seq<u8>,
        result: ProcessingResult,
    ) -> bool {
        class_line_processed(line, pre, post, before, after, result)
    }

    fn process_line(
        line: &[Symbol],
        program_memory: &mut MemoryManager,
        block_coordinator: &mut BlockCoordinator,
    ) -> (result: ProcessingResult) {
        if line.len() == 0 {
            return ProcessingResult::Unmatched;
        }
        match &line[0] {
            Symbol::Block(Block::Class) => {
                let handler = ClassBlock::new_block();
                let result = block_coordinator.add_block_handler(handler, program_memory, line);
                assert(BlockCoordinator::block_added(
                    *old(block_coordinator),
                    *block_coordinator,
                    handler,
                    line@,
                    old(program_memory)@,
                    program_memory@,
                    result,
                ));
                let ghost opened = *block_coordinator;
                if result.is_ok() {
                    block_coordinator.skip_sub_block_check = true;
                }
                assert(opened == (BlockCoordinator {
                    stack: block_coordinator.stack,
                    stack_sizes: block_coordinator.stack_sizes,
                    reference_stack: block_coordinator.reference_stack,
                    skip_sub_block_check: opened.skip_sub_block_check,
                }));
                matched(result)
            },
            _ => ProcessingResult::Unmatched,
        }
    }
}

} // verus!
