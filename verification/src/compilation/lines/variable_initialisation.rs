//! Lines that declare a variable: a type, a name, and a value where the
//! variable is given one.
use vstd::prelude::*;
use crate::compilation::arithmetic::{
    evaluate_arithmetic_into_type, evaluated_section, ReturnModel,
};
use crate::compilation::blocks::{lemma_handler_grows, BlockCoordinator, Output, StackSizes};
use crate::compilation::lines::line_handler::{untouched, LineHandler};
use crate::compilation::processor::{matched, ProcessingResult};
use crate::compilation::reference_manager::{
    already_exists_message, cannot_register_message, lemma_registered_ok,
    lemma_well_formed_grows, position_in, NamedReference, Reference, ReferenceStack,
};
use crate::compilation::types::{fresh_variable, Type, TypeFactory};
use crate::lexical_parsing::symbols::{Assigner, Symbol};
use crate::memory::memory_manager::MemoryManager;
use crate::util::clone_name;

verus! {

pub open spec fn value_format_message() -> Seq<char> {
    "Type must be followed by a Name, '=' and value to initialise a variable"@
}

pub open spec fn variable_format_message() -> Seq<char> {
    "Variable must be formatted [Type] [Name]"@
}

pub open spec fn name_expected_message() -> Seq<char> {
    "Type must be followed by a Name to initialise a variable"@
}

pub open spec fn property_name_message() -> Seq<char> {
    "Name must not be a property"@
}

pub open spec fn type_expected_message(received: Symbol) -> Seq<char> {
    "Type expected, recieved "@ + received.name()
}

/// What declaring a variable produces before its name is registered: the
/// variable in a fresh cell of the innermost frame, and its value stored
/// there where it is given one. Where `plain` is true, the name must have
/// one part.
pub open spec fn initialisation(
    line: Seq<Symbol>,
    has_value: bool,
    plain: bool,
    reference_stack: ReferenceStack,
    before: Output,
) -> Result<(Type, Output), Seq<char>> {
    if has_value && line.len() < 4 {
        Err(value_format_message())
    } else if !has_value && line.len() != 2 {
        Err(variable_format_message())
    } else if !(line[1] is Name) {
        Err(name_expected_message())
    } else if plain && line[1]->Name_0@.len() != 1 {
        Err(property_name_message())
    } else if has_value && !(line[2] matches Symbol::Assigner(Assigner::Setter)) {
        Err(value_format_message())
    } else {
        match line[0] {
            Symbol::Type(symbol) => match fresh_variable(symbol, before.stack_sizes) {
                Err(message) => Err(message),
                Ok((variable, stack_sizes)) => if has_value {
                    match evaluated_section(
                        line.subrange(3, line.len() as int),
                        ReturnModel::IntoType(variable),
                        reference_stack,
                        Output { memory: before.memory, stack_sizes },
                    ) {
                        Ok(evaluated) => Ok((variable, evaluated.output)),
                        Err(message) => Err(message),
                    }
                } else {
                    Ok((variable, Output { memory: before.memory, stack_sizes }))
                },
            },
            other => Err(type_expected_message(other)),
        }
    }
}

/// What declaring a variable whose name has one part in the scope `scope`
/// comes to: the entry that the scope gains, and what is produced. The name
/// must be new in the scope.
pub open spec fn declared_in(
    line: Seq<Symbol>,
    has_value: bool,
    reference_stack: ReferenceStack,
    scope: Option<Seq<NamedReference>>,
    before: Output,
) -> Result<(NamedReference, Output), Seq<char>> {
    match initialisation(line, has_value, true, reference_stack, before) {
        Err(message) => Err(message),
        Ok((variable, output)) => match scope {
            None => Err(cannot_register_message(line[1]->Name_0@)),
            Some(scope) => if position_in(scope, line[1]->Name_0@[0]@, 0) is Some {
                Err(already_exists_message(line[1]->Name_0@))
            } else {
                Ok(
                    (
                        NamedReference {
                            name: line[1]->Name_0@[0],
                            reference: Reference::Variable(variable),
                        },
                        output,
                    ),
                )
            },
        },
    }
}

/// What declaring a variable whose name has one part comes to: the entry
/// that the innermost scope gains, and what is produced.
pub open spec fn declared(
    line: Seq<Symbol>,
    has_value: bool,
    reference_stack: ReferenceStack,
    before: Output,
) -> Result<(NamedReference, Output), Seq<char>> {
    declared_in(
        line,
        has_value,
        reference_stack,
        if reference_stack.stack@.len() == 0 {
            None
        } else {
            Some(reference_stack.stack@.last()@)
        },
        before,
    )
}

/// Recognises and compiles the declaration of a variable.
pub struct VariableInitialisationLine {}

impl VariableInitialisationLine {
    /// Declares the variable that `line` describes: gives it a cell, stores
    /// its value where `has_value` says that the line holds one, and
    /// registers it under its name, whole: a name of one part in the
    /// innermost scope, a name of two parts in the class that the first
    /// part stands for.
    pub fn handle_initialisation(
        line: &[Symbol],
        program_memory: &mut MemoryManager,
        reference_stack: &mut ReferenceStack,
        stack_sizes: &mut StackSizes,
        has_value: bool,
    ) -> (result: Result<(), String>)
        requires
            old(reference_stack).well_formed(old(program_memory)@.len()),
        ensures
            old(program_memory)@.len() <= final(program_memory)@.len(),
            final(stack_sizes)@.len() == old(stack_sizes)@.len(),
            final(reference_stack).well_formed(final(program_memory)@.len()),
            match initialisation(
                line@,
                has_value,
                false,
                *old(reference_stack),
                Output { memory: old(program_memory)@, stack_sizes: old(stack_sizes)@ },
            ) {
                Err(message) => result is Err && result->Err_0@ == message,
                Ok((variable, output)) => final(program_memory)@ == output.memory && final(stack_sizes)@ == output.stack_sizes && old(reference_stack).registered(
                    *final(reference_stack),
                    Reference::Variable(variable),
                    line@[1]->Name_0@,
                    result,
                ),
            },
            line@.len() >= 2 && (line@[1] matches Symbol::Name(name) && name@.len() == 1)
                ==> match declared(
                line@,
                has_value,
                *old(reference_stack),
                Output { memory: old(program_memory)@, stack_sizes: old(stack_sizes)@ },
            ) {
                Err(message) => result is Err && result->Err_0@ == message,
                Ok((entry, output)) => result is Ok && final(program_memory)@ == output.memory
                    && final(stack_sizes)@ == output.stack_sizes && old(reference_stack).added_to_handler(
                    *final(reference_stack),
                    old(reference_stack).stack@.len() - 1,
                    entry,
                ),
            },
    {
        if has_value && line.len() < 4 {
            return Err(
                String::from_str(
                    "Type must be followed by a Name, '=' and value to initialise a variable",
                ),
            );
        } else if !has_value && line.len() != 2 {
            return Err(String::from_str("Variable must be formatted [Type] [Name]"));
        }
        let name = match &line[1] {
            Symbol::Name(name) => name,
            _ => {
                return Err(
                    String::from_str("Type must be followed by a Name to initialise a variable"),
                );
            },
        };
        if has_value {
            match &line[2] {
                Symbol::Assigner(Assigner::Setter) => {},
                _ => {
                    return Err(
                        String::from_str(
                            "Type must be followed by a Name, '=' and value to initialise a variable",
                        ),
                    );
                },
            }
        }
        let object = match &line[0] {
            Symbol::Type(type_symbol) => match TypeFactory::get_allocated_type(
                type_symbol,
                stack_sizes,
                program_memory,
            ) {
                Ok(object) => object,
                Err(message) => {
                    return Err(message);
                },
            },
            other => {
                let mut message = String::from_str("Type expected, recieved ");
                message.append(other.get_name());
                return Err(message);
            },
        };
        if has_value {
            let value = vstd::slice::slice_subrange(line, 3, line.len());
            let evaluated = evaluate_arithmetic_into_type(
                value,
                &object,
                program_memory,
                reference_stack,
                stack_sizes,
            );
            proof {
                lemma_well_formed_grows(
                    *reference_stack,
                    old(program_memory)@.len(),
                    program_memory@.len(),
                );
            }
            match evaluated {
                Ok(_) => {},
                Err(message) => {
                    return Err(message);
                },
            }
        }
        let ghost before = *reference_stack;
        let result = reference_stack.register_reference(
            Reference::Variable(object),
            clone_name(name),
        );
        proof {
            lemma_well_formed_grows(before, old(program_memory)@.len(), program_memory@.len());
            lemma_registered_ok(
                before,
                *reference_stack,
                Reference::Variable(object),
                name@,
                result,
                program_memory@.len(),
            );
            if name@.len() == 1 {
                reveal_with_fuel(crate::compilation::reference_manager::dotted, 3);
            }
        }
        result
    }
}

/// What a kind of line made of a line, as the result of a step that can
/// fail.
pub open spec fn step_of(result: ProcessingResult) -> Result<(), String> {
    match result {
        ProcessingResult::Failure(message) => Err(message),
        _ => Ok(()),
    }
}

/// A line that starts with a type declares a variable. Where the
/// innermost block is a class that still takes properties, the line is
/// left to the class. Otherwise the variable is declared with the value
/// that the line gives, and registered under its name.
pub open spec fn variable_initialisation_processed(
    line: Seq<Symbol>,
    pre: BlockCoordinator,
    post: BlockCoordinator,
    before: Seq<u8>,
    after: Seq<u8>,
    result: ProcessingResult,
) -> bool {
    if line.len() == 0 || !(line[0] is Type) {
        result is Unmatched && untouched(pre, post, before, after)
    } else if pre.stack@.len() > 0 && pre.stack@.last().takes_properties() {
        &&& result is Success
        &&& after == before
        &&& post.stack@ == pre.stack@.update(
            pre.stack@.len() - 1,
            pre.stack@.last().line_handled(),
        )
        &&& post.stack_sizes == pre.stack_sizes
        &&& post.reference_stack == pre.reference_stack
        &&& post.skip_sub_block_check == pre.skip_sub_block_check
    } else {
        match initialisation(
            line,
            true,
            false,
            pre.reference_stack,
            Output { memory: before, stack_sizes: pre.stack_sizes@ },
        ) {
            Err(message) => result is Failure && result->Failure_0@ == message,
            Ok((variable, output)) => {
                &&& !(result is Unmatched)
                &&& after == output.memory
                &&& post.stack_sizes@ == output.stack_sizes
                &&& pre.reference_stack.registered(
                    post.reference_stack,
                    Reference::Variable(variable),
                    line[1]->Name_0@,
                    step_of(result),
                )
                &&& post.stack@ == pre.stack@
                &&& post.skip_sub_block_check == pre.skip_sub_block_check
            },
        }
    }
}

impl LineHandler for VariableInitialisationLine {
    open spec fn processed(
        line: Seq<Symbol>,
        pre: BlockCoordinator,
        post: BlockCoordinator,
        before: Seq<u8>,
        after: Seq<u8>,
        result: ProcessingResult,
    ) -> bool {
        variable_initialisation_processed(line, pre, post, before, after, result)
    }

    fn process_line(
        line: &[Symbol],
        program_memory: &mut MemoryManager,
        block_coordinator: &mut BlockCoordinator,
    ) -> (result: ProcessingResult) {
        if line.len() == 0 {
            return ProcessingResult::Unmatched;
        }
        match &line[0] {
            Symbol::Type(_) => {},
            _ => {
                return ProcessingResult::Unmatched;
            },
        }
        if block_coordinator.in_properties_phase() {
            return matched(block_coordinator.handle_line(line));
        }
        let result = VariableInitialisationLine::handle_initialisation(
            line,
            program_memory,
            &mut block_coordinator.reference_stack,
            &mut block_coordinator.stack_sizes,
            true,
        );
        proof {
            assert forall|i: int| 0 <= i < block_coordinator.stack@.len() implies (
            #[trigger] block_coordinator.stack@[i]).well_formed(program_memory@.len()) by {
                lemma_handler_grows(
                    block_coordinator.stack@[i],
                    old(program_memory)@.len(),
                    program_memory@.len(),
                );
            }
        }
        matched(result)
    }
}

} // verus!
