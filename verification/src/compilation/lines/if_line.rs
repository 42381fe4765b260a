//! Lines that open a conditional block.
use vstd::prelude::*;
use crate::compilation::blocks::if_block::IfBlock;
use crate::compilation::blocks::{BlockCoordinator, BlockType};
use crate::compilation::lines::line_handler::{untouched, LineHandler};
use crate::compilation::processor::{matched, ProcessingResult};
use crate::lexical_parsing::symbols::{Block, Symbol};
use crate::memory::memory_manager::MemoryManager;
use crate::compilation::blocks::if_block::chained;

verus! {

/// Recognises the lines that open a conditional block and opens the block.
pub struct IfLine {}

/// The message for an `elif` or an `else` that follows no conditional
/// block.
pub open spec fn chain_message() -> Seq<char> {
    Block::Elif.name() + " and "@ + Block::Else.name() + " can only follow an "@ + Block::If.name()
        + " statement"@
}

fn chain_error() -> (message: String)
    ensures
        message@ == chain_message(),
{
    let mut message = String::from_str(Block::Elif.get_name());
    message.append(" and ");
    message.append(Block::Else.get_name());
    message.append(" can only follow an ");
    message.append(Block::If.get_name());
    message.append(" statement");
    message
}

/// True where `post`, `after` and `result` are what this kind of line makes
/// of `line`.
pub open spec fn if_line_processed(
    line: Seq<Symbol>,
    pre: BlockCoordinator,
    post: BlockCoordinator,
    before: Seq<u8>,
    after: Seq<u8>,
    result: ProcessingResult,
) -> bool {
    if line.len() > 0 && (line[0] matches Symbol::Block(Block::If)) {
        !(result is Unmatched) && BlockCoordinator::block_opened(
            pre,
            post,
            BlockType::If,
            line,
            before,
            after,
            result.outcome(),
        )
    } else if chained(line) is Some {
        result is Failure && result->Failure_0@ == chain_message() && untouched(
            pre,
            post,
            before,
            after,
        )
    } else {
        result is Unmatched && untouched(pre, post, before, after)
    }
}

impl LineHandler for IfLine {
    open spec fn processed(
        line: Seq<Symbol>,
        pre: BlockCoordinator,
        post: BlockCoordinator,
        before: Seq<u8>,
        after: Seq<u8>,
        result: ProcessingResult,
    ) -> bool {
        if_line_processed(line, pre, post, before, after, result)
    }

    fn process_line(
        line: &[Symbol],
        program_memory: &mut MemoryManager,
        block_coordinator: &mut BlockCoordinator,
    ) -> (result: ProcessingResult) {
        if line.len() == 0 {
            return ProcessingResult::Unmatched;
        }
        match &line[0] {
            Symbol::Block(Block::If) => {
                let handler = IfBlock::new_block();
                let result = block_coordinator.add_block_handler(handler, program_memory, line);
                assert(BlockCoordinator::block_added(
                    *old(block_coordinator),
                    *block_coordinator,
                    handler,
                    line@,
                    old(program_memory)@,
                    program_memory@,
                    result,
                ));
                matched(result)
            },
            Symbol::Block(Block::Elif) => ProcessingResult::Failure(chain_error()),
            Symbol::Block(Block::Else) => ProcessingResult::Failure(chain_error()),
            _ => ProcessingResult::Unmatched,
        }
    }
}

} // verus!
