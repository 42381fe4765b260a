//! The driver: it takes the lines of a program one by one, closes and opens
//! blocks as the indentation changes, and hands each line to the kinds of
//! line in a fixed order.
use vstd::prelude::*;
use crate::compilation::blocks::base_block::BaseBlock;
use crate::compilation::blocks::{
    indentation_message,
    not_open_error,
    not_open_message,
    scope_opened,
    BlockCoordinator,
    BlockHandler,
    Program,
};
use crate::compilation::reference_manager::{NamedReference, ReferenceStack};
use crate::compilation::lines::break_continue::{break_continue_processed, jumps, BreakContinueLine};
use crate::compilation::lines::call::{call_processed, CallLine};
use crate::compilation::lines::class_line::{class_line_processed, ClassLine};
use crate::compilation::lines::dump::{dump_processed, DumpLine};
use crate::compilation::lines::function_line::{function_line_processed, FunctionLine};
use crate::compilation::lines::if_line::{if_line_processed, IfLine};
use crate::compilation::lines::line_handler::{untouched, LineHandler};
use crate::compilation::lines::variable_assignment::{
    variable_assignment_processed, VariableAssignmentLine,
};
use crate::compilation::lines::variable_initialisation::{
    variable_initialisation_processed, VariableInitialisationLine,
};
use crate::compilation::lines::view_memory::{view_memory_processed, views_memory, ViewMemoryLine};
use crate::compilation::lines::while_line::{while_line_processed, WhileLine};
use crate::lexical_parsing::preprocessor::SymbolData;
use crate::lexical_parsing::symbols::{Block, Keyword, Symbol};
use crate::memory::memory_manager::MemoryManager;

verus! {

/// What a kind of line made of a line.
pub enum ProcessingResult {
    /// The line is not of this kind.
    Unmatched,
    /// The line is of this kind, and was compiled.
    Success,
    /// The line is of this kind, and cannot be compiled.
    Failure(String),
}

impl ProcessingResult {
    /// What compiling came to, for a line that was matched.
    pub open spec fn outcome(self) -> Result<(), String> {
        match self {
            ProcessingResult::Failure(message) => Err(message),
            _ => Ok(()),
        }
    }
}

/// The result for a line that was matched, from what compiling it came to.
pub fn matched(result: Result<(), String>) -> (processed: ProcessingResult)
    ensures
        !(processed is Unmatched),
        processed.outcome() == result,
{
    match result {
        Ok(unit) => {
            assert(unit == ());
            ProcessingResult::Success
        },
        Err(message) => ProcessingResult::Failure(message),
    }
}

/// The kinds of line, in the order in which a line is offered to them.
#[derive(PartialEq, Eq, Structural, Copy, Clone, Debug)]
pub enum LineKind {
    If,
    While,
    Function,
    Class,
    VariableInitialisation,
    VariableAssignment,
    Call,
    BreakContinue,
    Dump,
    ViewMemory,
}

/// The kind of a line: the first kind that recognises it.
pub open spec fn kind_of(line: Seq<Symbol>) -> Option<LineKind> {
    if line.len() == 0 {
        None
    } else if line[0] matches Symbol::Block(block) && (block == Block::If || block == Block::Elif
        || block == Block::Else) {
        Some(LineKind::If)
    } else if line[0] matches Symbol::Block(Block::While) {
        Some(LineKind::While)
    } else if line[0] matches Symbol::Block(Block::Function) {
        Some(LineKind::Function)
    } else if line[0] matches Symbol::Block(Block::Class) {
        Some(LineKind::Class)
    } else if line[0] is Type {
        Some(LineKind::VariableInitialisation)
    } else if line.len() >= 2 && line[0] is Name && line[1] is Assigner {
        Some(LineKind::VariableAssignment)
    } else if line.len() >= 2 && line[0] is Name && line[1] is List {
        Some(LineKind::Call)
    } else if jumps(line) {
        Some(LineKind::BreakContinue)
    } else if line[0] matches Symbol::Keyword(Keyword::Dump) {
        Some(LineKind::Dump)
    } else if views_memory(line) {
        Some(LineKind::ViewMemory)
    } else {
        None
    }
}

pub open spec fn not_recognised_message() -> Seq<char> {
    "The line is not of any known form"@
}

pub open spec fn unknown_file_message() -> Seq<char> {
    "A line comes from a file that is not known"@
}

/// True where `post`, `after` and `result` are what the kind of `line`
/// makes of it.
pub open spec fn routed(
    line: Seq<Symbol>,
    pre: BlockCoordinator,
    post: BlockCoordinator,
    before: Seq<u8>,
    after: Seq<u8>,
    result: ProcessingResult,
) -> bool {
    match kind_of(line) {
        None => result is Unmatched && untouched(pre, post, before, after),
        Some(LineKind::If) => if_line_processed(line, pre, post, before, after, result),
        Some(LineKind::While) => while_line_processed(line, pre, post, before, after, result),
        Some(LineKind::Function) => function_line_processed(
            line,
            pre,
            post,
            before,
            after,
            result,
        ),
        Some(LineKind::Class) => class_line_processed(line, pre, post, before, after, result),
        Some(LineKind::VariableInitialisation) => variable_initialisation_processed(
            line,
            pre,
            post,
            before,
            after,
            result,
        ),
        Some(LineKind::VariableAssignment) => variable_assignment_processed(
            line,
            pre,
            post,
            before,
            after,
            result,
        ),
        Some(LineKind::Call) => call_processed(line, pre, post, before, after, result),
        Some(LineKind::BreakContinue) => break_continue_processed(
            line,
            pre,
            post,
            before,
            after,
            result,
        ),
        Some(LineKind::Dump) => dump_processed(line, pre, post, before, after, result),
        Some(LineKind::ViewMemory) => view_memory_processed(
            line,
            pre,
            post,
            before,
            after,
            result,
        ),
    }
}

/// Offers a line to the kinds of line in their order, and compiles it with
/// the first that recognises it.
pub fn route_line(
    line: &[Symbol],
    program_memory: &mut MemoryManager,
    block_coordinator: &mut BlockCoordinator,
) -> (result: ProcessingResult)
    requires
        old(block_coordinator).well_formed(old(program_memory)@.len()),
    ensures
        routed(
            line@,
            *old(block_coordinator),
            *final(block_coordinator),
            old(program_memory)@,
            final(program_memory)@,
            result,
        ),
        result is Unmatched <==> kind_of(line@) is None,
        old(program_memory)@.len() <= final(program_memory)@.len(),
        result is Success ==> final(block_coordinator).well_formed(final(program_memory)@.len()),
{
    match IfLine::process_line(line, program_memory, block_coordinator) {
        ProcessingResult::Unmatched => {},
        result => {
            return result;
        },
    }
    match WhileLine::process_line(line, program_memory, block_coordinator) {
        ProcessingResult::Unmatched => {},
        result => {
            return result;
        },
    }
    match FunctionLine::process_line(line, program_memory, block_coordinator) {
        ProcessingResult::Unmatched => {},
        result => {
            return result;
        },
    }
    match ClassLine::process_line(line, program_memory, block_coordinator) {
        ProcessingResult::Unmatched => {},
        result => {
            return result;
        },
    }
    match VariableInitialisationLine::process_line(line, program_memory, block_coordinator) {
        ProcessingResult::Unmatched => {},
        result => {
            return result;
        },
    }
    match VariableAssignmentLine::process_line(line, program_memory, block_coordinator) {
        ProcessingResult::Unmatched => {},
        result => {
            return result;
        },
    }
    match CallLine::process_line(line, program_memory, block_coordinator) {
        ProcessingResult::Unmatched => {},
        result => {
            return result;
        },
    }
    match BreakContinueLine::process_line(line, program_memory, block_coordinator) {
        ProcessingResult::Unmatched => {},
        result => {
            return result;
        },
    }
    match DumpLine::process_line(line, program_memory, block_coordinator) {
        ProcessingResult::Unmatched => {},
        result => {
            return result;
        },
    }
    ViewMemoryLine::process_line(line, program_memory, block_coordinator)
}

/// True where `post` and `result` are what accounting for a line that has
/// been compiled comes to: unless the line opened a class, the innermost
/// block accounts for a line inside it.
pub open spec fn accounted(
    pre: BlockCoordinator,
    post: BlockCoordinator,
    result: Result<(), String>,
) -> bool {
    &&& post.stack_sizes == pre.stack_sizes
    &&& post.reference_stack == pre.reference_stack
    &&& !post.skip_sub_block_check
    &&& if pre.skip_sub_block_check || pre.stack@.len() == 0 {
        result is Ok && post.stack@ == pre.stack@
    } else {
        &&& post.stack@ == pre.stack@.update(
            pre.stack@.len() - 1,
            pre.stack@.last().sub_block_updated(None).0,
        )
        &&& crate::util::outcome(result) == pre.stack@.last().sub_block_updated(None).1
    }
}

/// True where `post`, `after` and `result` are what compiling a line at the
/// level of the innermost block comes to: the line is compiled by its
/// kind, and then accounted for. Fails where no kind recognises the line.
pub open spec fn line_compiled(
    line: Seq<Symbol>,
    pre: BlockCoordinator,
    post: BlockCoordinator,
    before: Seq<u8>,
    after: Seq<u8>,
    result: Result<(), String>,
) -> bool {
    exists|middle: BlockCoordinator, compiled: ProcessingResult| #[trigger]
        routed(line, pre, middle, before, after, compiled) && match compiled {
            ProcessingResult::Unmatched => result is Err && result->Err_0@
                == not_recognised_message(),
            ProcessingResult::Failure(message) => result is Err && result->Err_0@ == message@,
            ProcessingResult::Success => accounted(middle, post, result),
        }
}

/// True where `post`, `after` and `result` are what a line at the level
/// `indentation` comes to. A line without symbols changes nothing. A line
/// that lies deeper than the innermost block is refused. The blocks that lie
/// deeper than the line are left, innermost first: each is closed, but for
/// the outermost of them, which is handed the line and may take it as its
/// next branch. A line that no block has taken is compiled at the level of
/// the innermost block.
pub open spec fn line_processed(
    indentation: usize,
    line: Seq<Symbol>,
    pre: BlockCoordinator,
    post: BlockCoordinator,
    before: Seq<u8>,
    after: Seq<u8>,
    result: Result<(), String>,
) -> bool
    decreases pre.stack@.len(),
{
    if line.len() == 0 {
        result is Ok && untouched(pre, post, before, after)
    } else if pre.stack@.len() == 0 {
        result is Err && result->Err_0@ == not_open_message()
    } else if indentation > pre.stack@.len() - 1 {
        result is Err && result->Err_0@ == indentation_message()
    } else if indentation == pre.stack@.len() - 1 {
        line_compiled(line, pre, post, before, after, result)
    } else if indentation == pre.stack@.len() - 2 {
        exists|middle: BlockCoordinator, program: Seq<u8>, left: Result<bool, String>| #[trigger]
            BlockCoordinator::block_left(pre, middle, line, before, program, left) && match left {
                Err(message) => result is Err && result->Err_0@ == message@,
                Ok(false) => result is Ok && post == middle && after == program,
                Ok(true) => line_compiled(line, middle, post, program, after, result),
            }
    } else {
        exists|middle: BlockCoordinator, program: Seq<u8>, closed: Result<(), String>| #[trigger]
            BlockCoordinator::block_closed(pre, middle, before, program, closed) && match closed {
                Err(message) => result is Err && result->Err_0@ == message@,
                Ok(_) => middle.stack@.len() < pre.stack@.len() && line_processed(
                    indentation,
                    line,
                    middle,
                    post,
                    program,
                    after,
                    result,
                ),
            }
    }
}

fn compile_line(
    line: &[Symbol],
    program_memory: &mut MemoryManager,
    block_coordinator: &mut BlockCoordinator,
) -> (result: Result<(), String>)
    requires
        old(block_coordinator).well_formed(old(program_memory)@.len()),
    ensures
        line_compiled(
            line@,
            *old(block_coordinator),
            *final(block_coordinator),
            old(program_memory)@,
            final(program_memory)@,
            result,
        ),
        old(program_memory)@.len() <= final(program_memory)@.len(),
        result is Ok ==> final(block_coordinator).well_formed(final(program_memory)@.len()),
{
    let compiled = route_line(line, program_memory, block_coordinator);
    let ghost middle = *block_coordinator;
    let result = match compiled {
        ProcessingResult::Unmatched => Err(String::from_str("The line is not of any known form")),
        ProcessingResult::Failure(message) => Err(message),
        ProcessingResult::Success => block_coordinator.update_sub_block(),
    };
    proof {
        assert(routed(
            line@,
            *old(block_coordinator),
            middle,
            old(program_memory)@,
            program_memory@,
            compiled,
        ));
    }
    result
}

/// Compiles a line at the level `indentation`, after leaving the blocks
/// that lie deeper.
pub fn process_line(
    indentation: usize,
    line: &[Symbol],
    program_memory: &mut MemoryManager,
    block_coordinator: &mut BlockCoordinator,
) -> (result: Result<(), String>)
    requires
        old(block_coordinator).well_formed(old(program_memory)@.len()),
    ensures
        line_processed(
            indentation,
            line@,
            *old(block_coordinator),
            *final(block_coordinator),
            old(program_memory)@,
            final(program_memory)@,
            result,
        ),
        old(program_memory)@.len() <= final(program_memory)@.len(),
        result is Ok ==> final(block_coordinator).well_formed(final(program_memory)@.len()),
    decreases old(block_coordinator).stack@.len(),
{
    if line.len() == 0 {
        return Ok(());
    }
    let depth: usize = block_coordinator.get_block_depth();
    if depth == 0 {
        return Err(not_open_error());
    }
    if indentation > depth - 1 {
        return Err(String::from_str("Unexpected indentation"));
    }
    if indentation == depth - 1 {
        return compile_line(line, program_memory, block_coordinator);
    }
    if indentation == depth - 2 {
        let left = block_coordinator.exit_block_handler(program_memory, line);
        let ghost middle = *block_coordinator;
        let ghost program = program_memory@;
        let result = match &left {
            Err(_) => {
                match left {
                    Err(message) => Err(message),
                    Ok(_) => Ok(()),
                }
            },
            Ok(false) => Ok(()),
            Ok(true) => compile_line(line, program_memory, block_coordinator),
        };
        proof {
            assert(BlockCoordinator::block_left(
                *old(block_coordinator),
                middle,
                line@,
                old(program_memory)@,
                program,
                left,
            ));
        }
        return result;
    }
    let closed = block_coordinator.force_exit_block_handler(program_memory);
    let ghost middle = *block_coordinator;
    let ghost program = program_memory@;
    let result = match closed {
        Err(message) => Err(message),
        Ok(_) => process_line(indentation, line, program_memory, block_coordinator),
    };
    proof {
        assert(BlockCoordinator::block_closed(
            *old(block_coordinator),
            middle,
            old(program_memory)@,
            program,
            closed,
        ));
    }
    result
}

/// True where `post`, `after` and `result` are what closing every open
/// block comes to, innermost first.
pub open spec fn all_closed(
    pre: BlockCoordinator,
    post: BlockCoordinator,
    before: Seq<u8>,
    after: Seq<u8>,
    result: Result<(), String>,
) -> bool
    decreases pre.stack@.len(),
{
    if pre.stack@.len() == 0 {
        result is Ok && untouched(pre, post, before, after)
    } else {
        exists|middle: BlockCoordinator, program: Seq<u8>, closed: Result<(), String>| #[trigger]
            BlockCoordinator::block_closed(pre, middle, before, program, closed) && match closed {
                Err(message) => result is Err && result->Err_0@ == message@,
                Ok(_) => middle.stack@.len() < pre.stack@.len() && all_closed(
                    middle,
                    post,
                    program,
                    after,
                    result,
                ),
            }
    }
}

/// Closes every open block, innermost first.
pub fn close_all(program_memory: &mut MemoryManager, block_coordinator: &mut BlockCoordinator)
    -> (result: Result<(), String>)
    requires
        old(block_coordinator).well_formed(old(program_memory)@.len()),
    ensures
        all_closed(
            *old(block_coordinator),
            *final(block_coordinator),
            old(program_memory)@,
            final(program_memory)@,
            result,
        ),
        old(program_memory)@.len() <= final(program_memory)@.len(),
        result is Ok ==> final(block_coordinator).stack@.len() == 0,
    decreases old(block_coordinator).stack@.len(),
{
    if block_coordinator.get_block_depth() == 0 {
        return Ok(());
    }
    let closed = block_coordinator.force_exit_block_handler(program_memory);
    let ghost middle = *block_coordinator;
    let ghost program = program_memory@;
    let result = match closed {
        Err(message) => Err(message),
        Ok(_) => close_all(program_memory, block_coordinator),
    };
    proof {
        assert(BlockCoordinator::block_closed(
            *old(block_coordinator),
            middle,
            old(program_memory)@,
            program,
            closed,
        ));
    }
    result
}

/// The message of an error with the place of the line that it arose on.
pub open spec fn located_message(path: Seq<char>, message: Seq<char>) -> Seq<char> {
    path + ": "@ + message
}

/// True where `post`, `after` and `result` are what compiling the lines
/// from `from` on comes to, one after another. An error carries the place
/// of the line that it arose on.
pub open spec fn lines_processed(
    data: SymbolData,
    from: int,
    pre: BlockCoordinator,
    post: BlockCoordinator,
    before: Seq<u8>,
    after: Seq<u8>,
    result: Result<(), String>,
) -> bool
    decreases data.lines@.len() - from,
{
    if from < 0 || from >= data.lines@.len() {
        result is Ok && untouched(pre, post, before, after)
    } else if !data.names_file(from) {
        result is Err && result->Err_0@ == unknown_file_message()
    } else {
        exists|middle: BlockCoordinator, program: Seq<u8>, processed: Result<(), String>| #[trigger]
            line_processed(
                data.lines@[from].indentation,
                data.lines@[from].symbols@,
                pre,
                middle,
                before,
                program,
                processed,
            ) && match processed {
                Err(message) => result is Err && result->Err_0@ == located_message(
                    data.error_path(from),
                    message@,
                ),
                Ok(_) => lines_processed(data, from + 1, middle, post, program, after, result),
            }
    }
}

fn process_lines(
    data: &SymbolData,
    from: usize,
    program_memory: &mut MemoryManager,
    block_coordinator: &mut BlockCoordinator,
) -> (result: Result<(), String>)
    requires
        old(block_coordinator).well_formed(old(program_memory)@.len()),
    ensures
        lines_processed(
            *data,
            from as int,
            *old(block_coordinator),
            *final(block_coordinator),
            old(program_memory)@,
            final(program_memory)@,
            result,
        ),
        old(program_memory)@.len() <= final(program_memory)@.len(),
        result is Ok ==> final(block_coordinator).well_formed(final(program_memory)@.len()),
    decreases data.lines@.len() - from,
{
    if from >= data.lines.len() {
        return Ok(());
    }
    if data.lines[from].file_name_index >= data.file_names.len() {
        return Err(String::from_str("A line comes from a file that is not known"));
    }
    let processed = process_line(
        data.lines[from].indentation,
        data.lines[from].symbols.as_slice(),
        program_memory,
        block_coordinator,
    );
    let ghost middle = *block_coordinator;
    let ghost program = program_memory@;
    let result = match &processed {
        Err(message) => {
            let mut located = data.get_error_path(from);
            located.append(": ");
            located.append(message.as_str());
            Err(located)
        },
        Ok(_) => process_lines(data, from + 1, program_memory, block_coordinator),
    };
    proof {
        assert(line_processed(
            data.lines@[from as int].indentation,
            data.lines@[from as int].symbols@,
            *old(block_coordinator),
            middle,
            old(program_memory)@,
            program,
            processed,
        ));
    }
    result
}

/// True where `opened` and `start` are the state in which compiling starts:
/// the base block has been entered in an empty program, with one scope,
/// which is empty.
pub open spec fn base_entered(opened: BlockCoordinator, start: Seq<u8>) -> bool {
    &&& opened.stack@.len() == 1
    &&& opened.stack@[0] is Base
    &&& !opened.skip_sub_block_check
    &&& exists|names: ReferenceStack, new_block: BaseBlock|
        names.scopes() == seq![Seq::<NamedReference>::empty()] && names.reference_depth_limit == 0
            && new_block.stack_create_instruction is None && #[trigger]
        BaseBlock::entered(
            new_block,
            opened.stack@[0]->Base_0,
            Program { memory: Seq::empty(), stack_sizes: Seq::empty(), references: names },
            opened.program(start),
            Ok(()),
        )
}

/// True where `result` is what closing every block that is still open
/// comes to: the program, once the blocks are closed.
pub open spec fn finished(
    middle: BlockCoordinator,
    program: Seq<u8>,
    result: Result<MemoryManager, String>,
) -> bool {
    exists|closed: BlockCoordinator, end: Seq<u8>, closing: Result<(), String>| #[trigger]
        all_closed(middle, closed, program, end, closing) && match closing {
            Err(message) => result is Err && result->Err_0 == message,
            Ok(_) => result is Ok && result->Ok_0@ == end,
        }
}

/// True where `result` is what compiling the lines of `data` comes to,
/// once the base block is open, and then closing every block.
pub open spec fn continued(
    data: SymbolData,
    opened: BlockCoordinator,
    start: Seq<u8>,
    result: Result<MemoryManager, String>,
) -> bool {
    exists|middle: BlockCoordinator, program: Seq<u8>, processed: Result<(), String>| #[trigger]
        lines_processed(data, 0, opened, middle, start, program, processed) && match processed {
            Err(message) => result is Err && result->Err_0 == message,
            Ok(_) => finished(middle, program, result),
        }
}

/// True where `result` is what compiling the lines of `data` comes to: the
/// base block is opened in an empty program, the lines are compiled one
/// after another, and every block that is still open is closed.
pub open spec fn compiled(data: SymbolData, result: Result<MemoryManager, String>) -> bool {
    exists|opened: BlockCoordinator, start: Seq<u8>| #[trigger]
        base_entered(opened, start) && continued(data, opened, start, result)
}

/// Compiles the lines of a program.
pub fn compile(data: &SymbolData) -> (result: Result<MemoryManager, String>)
    ensures
        compiled(*data, result),
{
    let mut program_memory = MemoryManager::new();
    let mut block_coordinator = BlockCoordinator::new();
    let ghost empty = block_coordinator;
    let mut base_line: Vec<Symbol> = Vec::new();
    base_line.push(Symbol::Block(Block::BaseBlock));
    let new_block = BaseBlock::new_block();
    let entered = block_coordinator.add_block_handler(
        new_block,
        &mut program_memory,
        base_line.as_slice(),
    );
    let ghost opened = block_coordinator;
    let ghost start = program_memory@;
    proof {
        assert(entered is Ok);
        let unit = entered->Ok_0;
        assert(unit == ());
        assert(entered == Ok::<(), String>(unit));
        assert(opened.stack@.last() == opened.stack@[0]);
        let names = choose|names: ReferenceStack|
            scope_opened(empty.reference_stack, names) && #[trigger] BlockHandler::entered(
                new_block,
                opened.stack@.last(),
                base_line@,
                Program { memory: Seq::empty(), stack_sizes: empty.stack_sizes@, references: names },
                opened.program(start),
                entered,
            );
        assert(empty.stack_sizes@ =~= Seq::<usize>::empty());
        assert(empty.reference_stack.scopes() =~= Seq::<Seq<NamedReference>>::empty());
        assert(names.scopes() =~= seq![Seq::<NamedReference>::empty()]);
        assert(BaseBlock::entered(
            new_block->Base_0,
            opened.stack@[0]->Base_0,
            Program { memory: Seq::empty(), stack_sizes: Seq::empty(), references: names },
            opened.program(start),
            Ok(()),
        ));
        assert(base_entered(opened, start));
    }
    let processed = process_lines(data, 0, &mut program_memory, &mut block_coordinator);
    let ghost middle = block_coordinator;
    let ghost program = program_memory@;
    let result = match processed {
        Err(message) => Err(message),
        Ok(_) => {
            let closing = close_all(&mut program_memory, &mut block_coordinator);
            let ghost closed = block_coordinator;
            let ghost end = program_memory@;
            let result = match closing {
                Err(message) => Err(message),
                Ok(_) => Ok(program_memory),
            };
            proof {
                assert(all_closed(middle, closed, program, end, closing));
                assert(finished(middle, program, result));
            }
            result
        },
    };
    proof {
        assert(lines_processed(*data, 0, opened, middle, start, program, processed));
        assert(continued(*data, opened, start, result));
    }
    result
}

} // verus!
