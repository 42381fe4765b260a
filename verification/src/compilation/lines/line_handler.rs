//! What every kind of line offers.
use vstd::prelude::*;
use crate::compilation::blocks::BlockCoordinator;
use crate::compilation::processor::ProcessingResult;
use crate::lexical_parsing::symbols::Symbol;
use crate::memory::memory_manager::MemoryManager;

verus! {

/// True where nothing has changed.
pub open spec fn untouched(
    pre: BlockCoordinator,
    post: BlockCoordinator,
    before: Seq<u8>,
    after: Seq<u8>,
) -> bool {
    post == pre && after == before
}

/// A kind of line.
pub trait LineHandler {
    /// True where `post`, `after` and `result` are what this kind of line
    /// makes of `line`.
    spec fn processed(
        line: Seq<Symbol>,
        pre: BlockCoordinator,
        post: BlockCoordinator,
        before: Seq<u8>,
        after: Seq<u8>,
        result: ProcessingResult,
    ) -> bool;

    /// Attempts to process a line. The result is `Unmatched` where the line
    /// is not of this kind, `Success` where it is and was compiled, and
    /// `Failure` with the reason where it is and cannot be compiled.
    fn process_line(
        line: &[Symbol],
        program_memory: &mut MemoryManager,
        block_coordinator: &mut BlockCoordinator,
    ) -> (result: ProcessingResult)
        requires
            old(block_coordinator).well_formed(old(program_memory)@.len()),
        ensures
            Self::processed(
                line@,
                *old(block_coordinator),
                *final(block_coordinator),
                old(program_memory)@,
                final(program_memory)@,
                result,
            ),
            old(program_memory)@.len() <= final(program_memory)@.len(),
            result is Unmatched ==> untouched(
                *old(block_coordinator),
                *final(block_coordinator),
                old(program_memory)@,
                final(program_memory)@,
            ),
            result is Success ==> final(block_coordinator).well_formed(
                final(program_memory)@.len(),
            ),
    ;
}

} // verus!
