//! Function declarations.
use vstd::prelude::*;
use crate::compilation::blocks::{
    frame_has_room, grown, not_open_error, not_open_message, BlockHandler, Output, Program,
    StackSizes,
};
use crate::compilation::instructions::{
    DynamicJumpInstruction,
    JumpInstruction,
    StackUpInstruction,
};
use crate::compilation::lines::variable_initialisation::{
    declared_in, VariableInitialisationLine,
};
use crate::compilation::reference_manager::function::{resolved, FunctionReference};
use crate::compilation::reference_manager::{
    already_exists_text,
    cannot_register_text,
    lemma_location_in,
    lemma_position_by_names,
    lemma_position_of_added,
    lemma_reference_at_ok,
    lemma_registered_ok,
    lemma_registered_with_offset_ok,
    lemma_replaced_ok,
    lemma_scope_by_names,
    lemma_scope_of,
    lemma_scope_prefix,
    lemma_scope_range,
    lemma_shorter_ok,
    lemma_well_formed_grows,
    location_in,
    member_of,
    not_a_variable_message,
    placeholder,
    position_in,
    reference_in,
    reference_ok,
    same_but_reference,
    same_names,
    scope_of,
    NamedReference,
    Reference,
    ReferenceStack,
};
use crate::compilation::types::pointer::PointerType;
use crate::compilation::types::{frame_full_message, Type};
use crate::lexical_parsing::symbols::{name_text, Block, Symbol, CLASS_SELF_NAME};
use crate::memory::address::Address;
use crate::memory::memory_manager::{patched, MemoryManager};
use crate::util::{clone_name, usize_bytes, USIZE_BYTES};

verus! {

/// A function declaration. While its body is open, the block holds the name
/// under which the function is registered, the position of its first
/// instruction, the depth limit to restore, the jump that skips the body in
/// the flow of the code around it, and the cell of the return address.
pub struct FunctionBlock {
    pub name: Option<Vec<String>>,
    pub start_position: Option<usize>,
    pub previous_reference_limit: Option<usize>,
    pub skip_instruction: Option<JumpInstruction>,
    pub return_pointer: Option<PointerType>,
}

pub open spec fn declaration_message() -> Seq<char> {
    "Function declaration must be formatted "@ + Block::Function.code_representation()
        + " [Name] [Parameter List]"@
}

pub open spec fn function_name_message() -> Seq<char> {
    "Invalid function name - function names cannot contain separators"@
}

pub open spec fn function_missing_message() -> Seq<char> {
    "The function of the block is not registered"@
}

/// The name of a method `name` of the class that is being declared.
pub open spec fn method_name(name: Seq<char>) -> Seq<char> {
    CLASS_SELF_NAME@ + "."@ + name
}

/// What declaring the parameters from `from` on comes to: the scope of the
/// parameters, and the frame counters. Each parameter is declared like a
/// variable without a value, under a name of one part, so the parameters
/// lie in the frame one after another.
pub open spec fn parameters_declared(
    parameters: Seq<Vec<Symbol>>,
    from: int,
    scope: Seq<NamedReference>,
    stack_sizes: Seq<usize>,
    reference_stack: ReferenceStack,
) -> Result<(Seq<NamedReference>, Seq<usize>), Seq<char>>
    decreases parameters.len() - from,
{
    if from < 0 || from >= parameters.len() {
        Ok((scope, stack_sizes))
    } else {
        match declared_in(
            parameters[from]@,
            false,
            reference_stack,
            Some(scope),
            Output { memory: Seq::empty(), stack_sizes },
        ) {
            Err(message) => Err(message),
            Ok((entry, output)) => parameters_declared(
                parameters,
                from + 1,
                scope.push(entry),
                output.stack_sizes,
                reference_stack,
            ),
        }
    }
}

/// True where every entry of the scope is a variable.
pub open spec fn all_variables(scope: Seq<NamedReference>) -> bool {
    forall|i: int| 0 <= i < scope.len() ==> (#[trigger] scope[i]).reference is Variable
}

/// True where `reference` is a function whose body starts at `start`, whose
/// return address lies at `return_offset` of its frame, whose parameters
/// are those of the scope `parameters`, and of which nothing more is known
/// yet.
pub open spec fn describes(
    reference: Reference,
    start: usize,
    parameters: Seq<NamedReference>,
    return_offset: usize,
) -> bool {
    &&& reference matches Reference::Function(function)
    &&& function.start_position == start
    &&& function.return_pointer == (PointerType {
        address: Some(Address::StackDirect(return_offset)),
    })
    &&& function.stack_size is None
    &&& function.incomplete_function_calls@.len() == 0
    &&& function.parameters@.len() == parameters.len()
    &&& forall|i: int|
        0 <= i < parameters.len() ==> (#[trigger] function.parameters@[i]).0 == parameters[i].name
            && Reference::Variable(function.parameters@[i].1) == parameters[i].reference
}

impl FunctionBlock {
    /// True where the jump that skips the body lies inside a program of
    /// `length` bytes.
    pub open spec fn well_formed(self, length: nat) -> bool {
        &&& self.skip_instruction matches Some(jump) ==> jump.within(length)
        &&& self.return_pointer matches Some(pointer) ==> pointer.address is Some && !(
        pointer.address->0 is Immediate)
    }

    /// True where the block has not been entered.
    pub open spec fn is_new(self) -> bool {
        &&& self.name is None
        &&& self.start_position is None
        &&& self.previous_reference_limit is None
        &&& self.skip_instruction is None
        &&& self.return_pointer is None
    }

    /// True where `after` is what registering the function in the scope
    /// around its declaration, which is the scope next to the innermost
    /// one, and opening the scope of the body come to.
    pub open spec fn hoisted(
        scopes: Seq<Seq<NamedReference>>,
        parameters: Seq<NamedReference>,
        name: String,
        start: usize,
        return_offset: usize,
        after: Seq<Seq<NamedReference>>,
        result: Result<(), String>,
    ) -> bool {
        if scopes.len() < 2 {
            result is Err && result->Err_0@ == cannot_register_text(name@)
        } else if position_in(scopes[scopes.len() - 2], name@, 0) is Some {
            result is Err && result->Err_0@ == already_exists_text(name@)
        } else {
            let around = scopes.len() - 2;
            &&& result is Ok
            &&& after.len() == scopes.len() + 1
            &&& after == scopes.update(around, scopes[around].push(after[around].last())).update(
                scopes.len() - 1,
                parameters,
            ).push(Seq::empty())
            &&& after[around].last().name == name
            &&& describes(after[around].last().reference, start, parameters, return_offset)
        }
    }

    /// True where `after` is what registering the function as a method of
    /// the class that is being declared, and opening the scope of the body,
    /// come to.
    pub open spec fn joined(
        scopes: Seq<Seq<NamedReference>>,
        parameters: Seq<NamedReference>,
        name: String,
        start: usize,
        return_offset: usize,
        after: Seq<Seq<NamedReference>>,
        result: Result<(), String>,
    ) -> bool {
        let opened = scopes.update(scopes.len() - 1, parameters);
        match location_in(opened, seq![CLASS_SELF_NAME@], 0) {
            None => result is Err && result->Err_0@ == cannot_register_text(method_name(name@)),
            Some(location) => match reference_in(opened, location) {
                Reference::Class(class) => if position_in(class.references@, name@, 0) is Some {
                    result is Err && result->Err_0@ == already_exists_text(method_name(name@))
                } else {
                    let joined = after[location.handler as int][location.index as int].reference;
                    &&& result is Ok
                    &&& after.len() == opened.len() + 1
                    &&& after.last() == Seq::<NamedReference>::empty()
                    &&& same_but_reference(opened, after.drop_last(), location)
                    &&& joined matches Reference::Class(joined_class)
                    &&& joined_class.name == class.name
                    &&& joined_class.references@ == class.references@.push(
                        joined_class.references@.last(),
                    )
                    &&& joined_class.references@.last().name == name
                    &&& describes(
                        joined_class.references@.last().reference,
                        start,
                        parameters,
                        return_offset,
                    )
                },
                _ => result is Err && result->Err_0@ == cannot_register_text(method_name(name@)),
            },
        }
    }

    /// True where `post` and `after` are what entering the block with the
    /// line `fn name (parameters)` comes to. A jump that skips the body is
    /// emitted, with a destination that is still open; the body starts
    /// after it, by entering the frame of the call. The frame holds the
    /// parameters and then the return address. The parameters are declared
    /// in the innermost scope, which is the scope of the block, and what
    /// that scope holds in the end is the list of parameters, so it must
    /// hold variables alone. Inside a class, which is where `self` can be
    /// seen, the depth limit becomes the depth less one and the function is
    /// registered as a method of the class; elsewhere the limit becomes the
    /// depth, and the function is registered in the scope around the
    /// declaration. One scope is opened, for the body.
    pub open spec fn entered(
        pre: Self,
        post: Self,
        line: Seq<Symbol>,
        before: Program,
        after: Program,
        result: Result<(), String>,
    ) -> bool {
        if line.len() != 3 || !(line[1] is Name) {
            result is Err && result->Err_0@ == declaration_message()
        } else if line[1]->Name_0@.len() != 1 {
            result is Err && result->Err_0@ == function_name_message()
        } else if !(line[2] is List) {
            result is Err && result->Err_0@ == declaration_message()
        } else if before.references.scopes().len() == 0 {
            result is Err && result->Err_0@ == not_open_message()
        } else {
            let name = line[1]->Name_0@[0];
            let scopes = before.references.scopes();
            let in_class = scope_of(scopes, CLASS_SELF_NAME@, scopes.len() as int, 0) is Some;
            let start = (before.memory.len() + 1 + USIZE_BYTES) as usize;
            match parameters_declared(
                line[2]->List_0@,
                0,
                scopes.last(),
                before.stack_sizes.push(0),
                before.references,
            ) {
                Err(message) => result is Err && result->Err_0@ == message,
                Ok((parameters, parameter_sizes)) => if !all_variables(parameters) {
                    result is Err && result->Err_0@ == not_a_variable_message()
                } else if !frame_has_room(
                    parameter_sizes,
                    USIZE_BYTES,
                ) {
                    result is Err && result->Err_0@ == frame_full_message()
                } else {
                    let return_offset = parameter_sizes.last();
                    &&& if in_class {
                        FunctionBlock::joined(
                            scopes,
                            parameters,
                            name,
                            start,
                            return_offset,
                            after.references.scopes(),
                            result,
                        )
                    } else {
                        FunctionBlock::hoisted(
                            scopes,
                            parameters,
                            name,
                            start,
                            return_offset,
                            after.references.scopes(),
                            result,
                        )
                    }
                    &&& result is Ok ==> {
                        &&& after.memory == before.memory + JumpInstruction::bytes(0)
                            + StackUpInstruction::bytes()
                        &&& after.stack_sizes == grown(parameter_sizes, USIZE_BYTES)
                        &&& after.references.reference_depth_limit == (if in_class {
                            scopes.len() - 1
                        } else {
                            scopes.len() as int
                        })
                        &&& post.name is Some
                        &&& name_text(post.name->0@) == (if in_class {
                            seq![CLASS_SELF_NAME@, name@]
                        } else {
                            seq![name@]
                        })
                        &&& post.start_position == Some(start)
                        &&& post.previous_reference_limit == Some(
                            before.references.reference_depth_limit,
                        )
                        &&& post.skip_instruction == Some(
                            JumpInstruction { address: before.memory.len() as usize },
                        )
                        &&& post.return_pointer == Some(
                            PointerType { address: Some(Address::StackDirect(return_offset)) },
                        )
                    }
                },
            }
        }
    }

    /// A function block that has not been entered.
    pub fn new_block() -> (block: BlockHandler)
        ensures
            block matches BlockHandler::Function(inner) && inner.is_new(),
    {
        BlockHandler::Function(
            FunctionBlock {
                name: None,
                start_position: None,
                previous_reference_limit: None,
                skip_instruction: None,
                return_pointer: None,
            },
        )
    }

    /// Enters the block with the line that declares the function.
    #[verifier::loop_isolation(false)]
    pub fn on_entry(
        &mut self,
        program_memory: &mut MemoryManager,
        reference_stack: &mut ReferenceStack,
        stack_sizes: &mut StackSizes,
        symbol_line: &[Symbol],
    ) -> (result: Result<(), String>)
        requires
            old(reference_stack).well_formed(old(program_memory)@.len()),
        ensures
            FunctionBlock::entered(
                *old(self),
                *final(self),
                symbol_line@,
                Program {
                    memory: old(program_memory)@,
                    stack_sizes: old(stack_sizes)@,
                    references: *old(reference_stack),
                },
                Program {
                    memory: final(program_memory)@,
                    stack_sizes: final(stack_sizes)@,
                    references: *final(reference_stack),
                },
                result,
            ),
            old(program_memory)@.len() <= final(program_memory)@.len(),
            result is Ok ==> final(stack_sizes)@.len() == old(stack_sizes)@.len() + 1,
            result is Ok ==> final(self).well_formed(final(program_memory)@.len()),
            result is Ok ==> final(reference_stack).well_formed(final(program_memory)@.len()),
            result is Ok ==> final(reference_stack).stack@.len() == old(reference_stack).stack@.len()
                + 1,
    {
        let skip_instruction = JumpInstruction::new_alloc(program_memory, 0);
        let start_position: usize = program_memory.get_position();
        StackUpInstruction::new_alloc(program_memory);
        stack_sizes.add_stack();
        if symbol_line.len() != 3 {
            return Err(declaration_error());
        }
        let name: String = match &symbol_line[1] {
            Symbol::Name(name) => {
                if name.len() != 1 {
                    return Err(
                        String::from_str(
                            "Invalid function name - function names cannot contain separators",
                        ),
                    );
                }
                name[0].clone()
            },
            _ => {
                return Err(declaration_error());
            },
        };
        let parameter_list = match &symbol_line[2] {
            Symbol::List(parameters) => parameters,
            _ => {
                return Err(declaration_error());
            },
        };
        let ghost scopes = reference_stack.scopes();
        let ghost before_references = *reference_stack;
        let previous_reference_limit: usize = reference_stack.get_reference_depth_limit();
        let depth: usize = reference_stack.get_depth();
        if depth == 0 {
            return Err(not_open_error());
        }
        let mut self_name: Vec<String> = Vec::new();
        self_name.push(String::from_str(CLASS_SELF_NAME));
        proof {
            lemma_scope_of(*reference_stack, CLASS_SELF_NAME@, depth as int, 0);
            crate::compilation::reference_manager::lemma_handler_of_range(
                *reference_stack,
                CLASS_SELF_NAME@,
                depth as int,
                0,
            );
        }
        let in_class: bool = reference_stack.get_reference(self_name.as_slice()).is_ok();
        let limit: usize = if in_class {
            depth - 1
        } else {
            depth
        };
        reference_stack.set_reference_depth_limit(limit);
        assert(reference_stack.well_formed(program_memory@.len())) by {
            lemma_well_formed_grows(
                before_references,
                old(program_memory)@.len(),
                program_memory@.len(),
            );
        }
        assert(reference_stack.scopes() =~= scopes);
        let ghost first = stack_sizes@;
        let mut i: usize = 0;
        while i < parameter_list.len()
            invariant
                i <= parameter_list@.len(),
                reference_stack.well_formed(program_memory@.len()),
                reference_stack.stack@.len() == depth,
                reference_stack.scopes().drop_last() == scopes.drop_last(),
                reference_stack.reference_depth_limit == limit,
                program_memory@ == old(program_memory)@ + JumpInstruction::bytes(0)
                    + StackUpInstruction::bytes(),
                stack_sizes@.len() == old(stack_sizes)@.len() + 1,
                parameters_declared(
                    parameter_list@,
                    0,
                    scopes.last(),
                    first,
                    before_references,
                ) == parameters_declared(
                    parameter_list@,
                    i as int,
                    reference_stack.stack@.last()@,
                    stack_sizes@,
                    before_references,
                ),
            decreases parameter_list@.len() - i,
        {
            let ghost earlier = *reference_stack;
            let ghost scope = reference_stack.stack@.last()@;
            let ghost earlier_sizes = stack_sizes@;
            proof {
                lemma_parameter_declared(
                    parameter_list@[i as int]@,
                    earlier,
                    before_references,
                    scope,
                    program_memory@,
                    Seq::empty(),
                    earlier_sizes,
                );
                assert(earlier.scopes()[depth - 1] == scope);
            }
            if parameter_list[i].len() == 2 {
                match &parameter_list[i][1] {
                    Symbol::Name(parts) => {
                        if parts.len() != 1 {
                            return Err(String::from_str("Name must not be a property"));
                        }
                    },
                    _ => {},
                }
            }
            match VariableInitialisationLine::handle_initialisation(
                parameter_list[i].as_slice(),
                program_memory,
                reference_stack,
                stack_sizes,
                false,
            ) {
                Ok(_) => {},
                Err(message) => {
                    return Err(message);
                },
            }
            proof {
                assert(reference_stack.scopes().len() == earlier.scopes().len());
                assert(reference_stack.scopes()[depth - 1] == reference_stack.stack@.last()@);
                assert(reference_stack.scopes().drop_last() =~= scopes.drop_last());
            }
            i = i + 1;
        }
        let ghost parameters = reference_stack.stack@.last()@;
        let ghost opened = reference_stack.scopes();
        assert(opened =~= scopes.update(scopes.len() - 1, parameters)) by {
            assert forall|h: int| 0 <= h < scopes.len() - 1 implies opened[h] == scopes[h] by {
                assert(opened.drop_last()[h] == scopes.drop_last()[h]);
            }
        }
        let declared = reference_stack.get_top_stack();
        let mut cloned_parameters: Vec<(String, Type)> = Vec::new();
        let mut k: usize = 0;
        while k < declared.len()
            invariant
                k <= declared@.len(),
                declared@ == parameters,
                reference_stack.well_formed(program_memory@.len()),
                reference_stack.stack@.len() == depth,
                reference_stack.stack@.last()@ == parameters,
                cloned_parameters@.len() == k,
                forall|n: int|
                    0 <= n < k ==> (#[trigger] parameters[n]).reference is Variable,
                forall|n: int|
                    0 <= n < k ==> (#[trigger] cloned_parameters@[n]).0 == parameters[n].name
                        && Reference::Variable(cloned_parameters@[n].1) == parameters[n].reference
                        && cloned_parameters@[n].1.is_allocated(),
            decreases declared@.len() - k,
        {
            assert(reference_ok(
                reference_stack.stack@[depth - 1]@[k as int].reference,
                program_memory@.len(),
            ));
            match &declared[k].reference {
                Reference::Variable(variable) => {
                    cloned_parameters.push((declared[k].name.clone(), variable.duplicate()));
                },
                _ => {
                    assert(!(parameters[k as int].reference is Variable));
                    return Err(String::from_str("Reference is not a variable"));
                },
            }
            k = k + 1;
        }
        if !stack_sizes.has_room(USIZE_BYTES) {
            return Err(String::from_str("The stack frame cannot hold another variable"));
        }
        let return_offset: usize = stack_sizes.increment_stack_size(USIZE_BYTES);
        let return_pointer = PointerType { address: Some(Address::StackDirect(return_offset)) };
        let function_reference = FunctionReference::new(
            start_position,
            PointerType { address: Some(Address::StackDirect(return_offset)) },
            cloned_parameters,
            None,
        );
        let ghost registered_function = Reference::Function(function_reference);
        assert(reference_ok(registered_function, program_memory@.len()));
        assert(describes(registered_function, start_position, parameters, return_offset));
        let ghost unregistered = *reference_stack;
        let mut path: Vec<String> = Vec::new();
        if in_class {
            path.push(String::from_str(CLASS_SELF_NAME));
            path.push(name.clone());
            proof {
                reveal_with_fuel(crate::compilation::reference_manager::dotted, 3);
                lemma_location_in(unregistered, path@.take(1), 0);
                assert(name_text(path@.take(1)) =~= seq![CLASS_SELF_NAME@]);
                assert(crate::compilation::reference_manager::dotted(path@, 2) =~= method_name(
                    name@,
                ));
                assert(name_text(path@) =~= seq![CLASS_SELF_NAME@, name@]);
            }
            let result = reference_stack.register_reference(
                Reference::Function(function_reference),
                clone_name(&path),
            );
            proof {
                lemma_registered_ok(
                    unregistered,
                    *reference_stack,
                    registered_function,
                    path@,
                    result,
                    program_memory@.len(),
                );
            }
            match result {
                Ok(_) => {},
                Err(message) => {
                    return Err(message);
                },
            }
            proof {
                let location = unregistered.location_of(path@.take(1), 0)->0;
                assert(same_but_reference(opened, reference_stack.scopes(), location)) by {
                    assert forall|h: int| 0 <= h < opened.len() implies #[trigger] opened[h]
                        == unregistered.stack@[h]@ by {}
                    assert forall|h: int|
                        0 <= h < opened.len() implies #[trigger] reference_stack.scopes()[h]
                        == reference_stack.stack@[h]@ by {}
                }
            }
        } else {
            path.push(name.clone());
            proof {
                reveal_with_fuel(crate::compilation::reference_manager::dotted, 3);
                assert(name_text(path@) =~= seq![name@]);
                assert(crate::compilation::reference_manager::dotted(seq![name], 1) =~= name@);
            }
            let result = reference_stack.register_reference_with_offset(
                Reference::Function(function_reference),
                name,
                1,
            );
            proof {
                lemma_registered_with_offset_ok(
                    unregistered,
                    *reference_stack,
                    registered_function,
                    name,
                    1,
                    result,
                    program_memory@.len(),
                );
            }
            match result {
                Ok(_) => {},
                Err(message) => {
                    return Err(message);
                },
            }
        }
        let ghost registered = *reference_stack;
        reference_stack.add_handler();
        proof {
            assert forall|handler: int, index: int|
                0 <= handler < reference_stack.stack@.len() && 0 <= index
                    < reference_stack.stack@[handler]@.len() implies reference_ok(
                #[trigger] reference_stack.stack@[handler]@[index].reference,
                program_memory@.len(),
            ) by {
                assert(reference_stack.stack@.drop_last()[handler] == registered.stack@[handler]);
            }
            if in_class {
                assert(reference_stack.scopes().drop_last() =~= registered.scopes());
            } else {
                let around = scopes.len() - 2;
                assert(registered.scopes()[around].last() == (NamedReference {
                    name,
                    reference: registered_function,
                }));
                assert(reference_stack.scopes()[around] == registered.scopes()[around]);
                assert(reference_stack.scopes() =~= scopes.update(
                    around,
                    scopes[around].push(reference_stack.scopes()[around].last()),
                ).update(scopes.len() - 1, parameters).push(Seq::empty()));
            }
        }
        self.name = Some(path);
        self.start_position = Some(start_position);
        self.previous_reference_limit = Some(previous_reference_limit);
        self.skip_instruction = Some(skip_instruction);
        self.return_pointer = Some(return_pointer);
        Ok(())
    }

    /// True where `post` and `after` are what closing the block comes to.
    /// The scope of the body is closed. A jump to
    /// the position that the cell of the return address holds ends the
    /// body. The function is completed: the size of its frame, which is
    /// that of the innermost frame counter, is recorded, and every call
    /// site that waited is given this size and the position to enter at.
    /// The depth limit is restored, the frame counter is closed, and the
    /// jump that skips the body lands at the end of the program. Fails
    /// where the block has not been entered, or the function is not
    /// registered any more.
    pub open spec fn force_exited(
        pre: Self,
        post: Self,
        before: Program,
        after: Program,
        result: Result<(), String>,
    ) -> bool {
        if pre.name is None || pre.return_pointer is None || pre.skip_instruction is None
            || pre.previous_reference_limit is None || before.references.stack@.len() == 0
            || before.stack_sizes.len() == 0 {
            result is Err && result->Err_0@ == not_open_message() && after == before && post == pre
        } else {
            let base = before.references.scopes().drop_last();
            let location = location_in(base, name_text(pre.name->0@), 0);
            if location is None || !(reference_in(base, location->0) is Function) {
                result is Err && result->Err_0@ == function_missing_message()
            } else {
                let function = reference_in(base, location->0)->Function_0;
                let returned = before.memory + DynamicJumpInstruction::bytes(
                    pre.return_pointer->0.address->0,
                );
                let size = before.stack_sizes.last();
                let skip = pre.skip_instruction->0;
                &&& result is Ok
                &&& after.memory == patched(
                    resolved(
                        function.incomplete_function_calls@,
                        function.incomplete_function_calls@.len(),
                        returned,
                        size,
                        function.start_position,
                    ),
                    skip.destination_position(),
                    usize_bytes(returned.len() as usize),
                )
                &&& skip.destination_in(after.memory) == after.memory.len()
                &&& skip.end() <= after.memory.len()
                &&& after.stack_sizes == before.stack_sizes.drop_last()
                &&& after.references.reference_depth_limit == pre.previous_reference_limit->0
                &&& same_but_reference(base, after.references.scopes(), location->0)
                &&& reference_in(after.references.scopes(), location->0) matches Reference::Function(
                    completed,
                )
                &&& completed.stack_size == Some(size)
                &&& completed.incomplete_function_calls@.len() == 0
                &&& completed.start_position == function.start_position
                &&& completed.return_pointer == function.return_pointer
                &&& completed.parameters == function.parameters
                &&& post.is_new()
            }
        }
    }

    /// Handles the line that follows the block: the block is closed,
    /// whatever the line.
    pub fn on_exit(
        &mut self,
        program_memory: &mut MemoryManager,
        reference_stack: &mut ReferenceStack,
        stack_sizes: &mut StackSizes,
        _symbol_line: &[Symbol],
    ) -> (result: Result<bool, String>)
        requires
            old(self).well_formed(old(program_memory)@.len()),
            old(reference_stack).well_formed(old(program_memory)@.len()),
        ensures
            FunctionBlock::force_exited(
                *old(self),
                *final(self),
                Program {
                    memory: old(program_memory)@,
                    stack_sizes: old(stack_sizes)@,
                    references: *old(reference_stack),
                },
                Program {
                    memory: final(program_memory)@,
                    stack_sizes: final(stack_sizes)@,
                    references: *final(reference_stack),
                },
                match result {
                    Ok(_) => Ok(()),
                    Err(message) => Err(message),
                },
            ),
            result is Ok ==> result->Ok_0,
            old(program_memory)@.len() <= final(program_memory)@.len(),
            result is Ok ==> final(stack_sizes)@.len() + 1 == old(stack_sizes)@.len(),
            result is Ok ==> final(self).well_formed(final(program_memory)@.len()),
            result is Ok ==> final(reference_stack).well_formed(final(program_memory)@.len()),
            result is Ok ==> final(reference_stack).stack@.len() + 1 == old(reference_stack).stack@.len(),
    {
        match self.on_forced_exit(program_memory, reference_stack, stack_sizes) {
            Ok(_) => Ok(true),
            Err(message) => Err(message),
        }
    }

    /// Closes the block.
    pub fn on_forced_exit(
        &mut self,
        program_memory: &mut MemoryManager,
        reference_stack: &mut ReferenceStack,
        stack_sizes: &mut StackSizes,
    ) -> (result: Result<(), String>)
        requires
            old(self).well_formed(old(program_memory)@.len()),
            old(reference_stack).well_formed(old(program_memory)@.len()),
        ensures
            FunctionBlock::force_exited(
                *old(self),
                *final(self),
                Program {
                    memory: old(program_memory)@,
                    stack_sizes: old(stack_sizes)@,
                    references: *old(reference_stack),
                },
                Program {
                    memory: final(program_memory)@,
                    stack_sizes: final(stack_sizes)@,
                    references: *final(reference_stack),
                },
                result,
            ),
            old(program_memory)@.len() <= final(program_memory)@.len(),
            result is Ok ==> final(stack_sizes)@.len() + 1 == old(stack_sizes)@.len(),
            result is Ok ==> old(self).skip_instruction->0.destination_in(final(program_memory)@)
                == final(program_memory)@.len() && old(self).skip_instruction->0.end() <= final(program_memory)@.len(),
            result is Ok ==> ({
                let location = location_in(
                    old(reference_stack).scopes().drop_last(),
                    name_text(old(self).name->0@),
                    0,
                )->0;
                reference_in(final(reference_stack).scopes(), location) matches Reference::Function(
                    completed,
                ) && completed.is_complete() && completed.incomplete_function_calls@.len() == 0
            }),
            result is Ok ==> final(program_memory)@.len() == old(program_memory)@.len()
                + DynamicJumpInstruction::bytes(old(self).return_pointer->0.address->0).len(),
            result is Ok ==> final(self).well_formed(final(program_memory)@.len()),
            result is Ok ==> final(reference_stack).well_formed(final(program_memory)@.len()),
            result is Ok ==> final(reference_stack).stack@.len() + 1 == old(reference_stack).stack@.len(),
    {
        if self.name.is_none() || self.return_pointer.is_none() || self.skip_instruction.is_none()
            || self.previous_reference_limit.is_none() || reference_stack.get_depth() == 0
            || stack_sizes.depth() == 0 {
            return Err(not_open_error());
        }
        let ghost before_references = *reference_stack;
        reference_stack.remove_handler();
        let ghost base_references = *reference_stack;
        let ghost base = reference_stack.scopes();
        proof {
            lemma_shorter_ok(before_references, base_references, old(program_memory)@.len());
        }
        match &self.return_pointer {
            Some(return_pointer) => {
                DynamicJumpInstruction::new_alloc(program_memory, return_pointer.get_address());
            },
            None => {},
        }
        let ghost returned = program_memory@;
        let location = match &self.name {
            Some(name) => {
                proof {
                    lemma_location_in(base_references, name@, 0);
                }
                reference_stack.locate(name.as_slice())
            },
            None => None,
        };
        let location = match location {
            Some(location) => location,
            None => {
                return Err(function_missing_error());
            },
        };
        let taken = reference_stack.replace_reference(&location, placeholder());
        let ghost hollow = *reference_stack;
        let mut function = match taken {
            Reference::Function(function) => function,
            other => {
                reference_stack.replace_reference(&location, other);
                return Err(function_missing_error());
            },
        };
        let ghost declared = function;
        proof {
            lemma_reference_at_ok(base_references, location, old(program_memory)@.len());
            crate::compilation::reference_manager::function::lemma_calls_in_order_grow(
                function.incomplete_function_calls@,
                old(program_memory)@.len(),
                program_memory@.len(),
            );
        }
        function.set_stack_size_and_complete(stack_sizes.get_stack_size(), program_memory);
        let ghost completed = Reference::Function(function);
        reference_stack.replace_reference(&location, Reference::Function(function));
        proof {
            lemma_well_formed_grows(
                base_references,
                old(program_memory)@.len(),
                program_memory@.len(),
            );
            assert(base_references.replaced_at(*reference_stack, location, completed));
            lemma_replaced_ok(
                base_references,
                *reference_stack,
                location,
                completed,
                program_memory@.len(),
            );
            assert(same_but_reference(base, reference_stack.scopes(), location)) by {
                assert forall|h: int| 0 <= h < base.len() implies #[trigger] base[h]
                    == base_references.stack@[h]@ by {}
                assert forall|h: int|
                    0 <= h < base.len() implies #[trigger] reference_stack.scopes()[h]
                    == reference_stack.stack@[h]@ by {}
            }
            assert(base =~= old(reference_stack).scopes().drop_last());
        }
        match self.previous_reference_limit {
            Some(limit) => {
                reference_stack.set_reference_depth_limit(limit);
            },
            None => {},
        }
        stack_sizes.remove_stack();
        match &self.skip_instruction {
            Some(skip_instruction) => {
                skip_instruction.set_destination(program_memory.get_position(), program_memory);
            },
            None => {},
        }
        self.name = None;
        self.start_position = None;
        self.previous_reference_limit = None;
        self.skip_instruction = None;
        self.return_pointer = None;
        Ok(())
    }

    /// A `break` cannot leave a function.
    pub fn on_break(&mut self, _program_memory: &mut MemoryManager) -> (result: Result<
        bool,
        String,
    >)
        ensures
            result is Err,
            result->Err_0@ == "Can't break out of a function"@,
            *final(self) == *old(self),
            final(_program_memory)@ == old(_program_memory)@,
    {
        Err(String::from_str("Can't break out of a function"))
    }

    /// A `continue` cannot leave a function.
    pub fn on_continue(&mut self, _program_memory: &mut MemoryManager) -> (result: Result<
        bool,
        String,
    >)
        ensures
            result is Err,
            result->Err_0@ == "Can't continue a function"@,
            *final(self) == *old(self),
            final(_program_memory)@ == old(_program_memory)@,
    {
        Err(String::from_str("Can't continue a function"))
    }
}

fn function_missing_error() -> (message: String)
    ensures
        message@ == function_missing_message(),
{
    String::from_str("The function of the block is not registered")
}

fn declaration_error() -> (message: String)
    ensures
        message@ == declaration_message(),
{
    let mut message = String::from_str("Function declaration must be formatted ");
    message.append(Block::Function.get_code_representation());
    message.append(" [Name] [Parameter List]");
    message
}

/// Declaring a variable without a value depends on the scope and on the
/// frame counters alone, and leaves the program as it is.
pub proof fn lemma_parameter_declared(
    line: Seq<Symbol>,
    first: ReferenceStack,
    second: ReferenceStack,
    scope: Seq<NamedReference>,
    first_memory: Seq<u8>,
    second_memory: Seq<u8>,
    stack_sizes: Seq<usize>,
)
    ensures
        match declared_in(
            line,
            false,
            first,
            Some(scope),
            Output { memory: first_memory, stack_sizes },
        ) {
            Err(message) => declared_in(
                line,
                false,
                second,
                Some(scope),
                Output { memory: second_memory, stack_sizes },
            ) == Err::<(NamedReference, Output), Seq<char>>(message),
            Ok((entry, output)) => declared_in(
                line,
                false,
                second,
                Some(scope),
                Output { memory: second_memory, stack_sizes },
            ) == Ok::<(NamedReference, Output), Seq<char>>(
                (entry, Output { memory: second_memory, stack_sizes: output.stack_sizes }),
            ) && output.memory == first_memory && entry.reference is Variable,
        },
{
}

/// The body of a function that is declared outside any class is
/// quarantined: once the block has been entered, no name can be seen from
/// inside but those of the scope of the block, which are the parameters,
/// whatever could be seen before.
pub proof fn lemma_function_body_is_quarantined(
    pre: FunctionBlock,
    post: FunctionBlock,
    line: Seq<Symbol>,
    before: Program,
    after: Program,
    result: Result<(), String>,
    name: Seq<String>,
)
    requires
        FunctionBlock::entered(pre, post, line, before, after, result),
        result is Ok,
        scope_of(
            before.references.scopes(),
            CLASS_SELF_NAME@,
            before.references.scopes().len() as int,
            0,
        ) is None,
        name.len() > 0,
        before.references.lookup(name) is Some,
        position_in(
            after.references.scopes()[before.references.scopes().len() - 1],
            name[0]@,
            0,
        ) is None,
    ensures
        after.references.lookup(name) is None,
{
    let scopes = before.references.scopes();
    let entered = after.references.scopes();
    let depth = entered.len() as int;
    reveal_with_fuel(member_of, 2);
    lemma_scope_of(before.references, CLASS_SELF_NAME@, scopes.len() as int, 0);
    assert(depth == scopes.len() + 1);
    assert(after.references.reference_depth_limit == scopes.len());
    assert(name[0]@ != CLASS_SELF_NAME@) by {
        if name[0]@ == CLASS_SELF_NAME@ {
            assert(before.references.lowest_visible(name[0]@) == 0);
        }
    }
    let floor = after.references.lowest_visible(name[0]@);
    assert(floor == scopes.len() - 1);
    assert(entered[depth - 1] == Seq::<NamedReference>::empty());
    lemma_scope_of(after.references, name[0]@, depth, floor);
    reveal_with_fuel(scope_of, 3);
    assert(scope_of(entered, name[0]@, depth, floor) is None);
}

/// A method is found through `self` from inside its body: once a function
/// has been entered inside a class, the name `self`, followed by the name
/// of the function, stands for the function, whatever the depth limit.
pub proof fn lemma_method_is_found_through_self(
    pre: FunctionBlock,
    post: FunctionBlock,
    line: Seq<Symbol>,
    before: Program,
    after: Program,
    result: Result<(), String>,
    path: Seq<String>,
)
    requires
        FunctionBlock::entered(pre, post, line, before, after, result),
        result is Ok,
        scope_of(
            before.references.scopes(),
            CLASS_SELF_NAME@,
            before.references.scopes().len() as int,
            0,
        ) is Some,
        path.len() == 2,
        path[0]@ == CLASS_SELF_NAME@,
        path[1]@ == line[1]->Name_0@[0]@,
    ensures
        after.references.lookup(path) matches Some(Reference::Function(function))
            && post.start_position == Some(function.start_position),
{
    let name = line[1]->Name_0@[0];
    let scopes = before.references.scopes();
    let parameters = parameters_declared(
        line[2]->List_0@,
        0,
        scopes.last(),
        before.stack_sizes.push(0),
        before.references,
    )->Ok_0.0;
    let opened = scopes.update(scopes.len() - 1, parameters);
    let entered = after.references.scopes();
    let location = location_in(opened, seq![CLASS_SELF_NAME@], 0)->0;
    let handler = location.handler as int;
    let index = location.index as int;
    let depth = entered.len() as int;
    lemma_scope_range(opened, CLASS_SELF_NAME@, opened.len() as int, 0);
    crate::compilation::reference_manager::lemma_position_in_range(
        opened[scope_of(opened, CLASS_SELF_NAME@, opened.len() as int, 0)->0],
        CLASS_SELF_NAME@,
        0,
    );
    assert(location.member is None);
    assert(0 <= handler < opened.len());
    let closed = entered.drop_last();
    assert forall|k: int| 0 <= k < opened.len() implies same_names(
        #[trigger] opened[k],
        closed[k],
    ) by {
        if k == handler {
            assert forall|i: int| 0 <= i < opened[k].len() implies (#[trigger] opened[k][i]).name@
                == closed[k][i].name@ by {
                if i != index {
                    assert(closed[handler][i] == opened[handler][i]);
                }
            }
        } else {
            assert(closed[k] == opened[k]);
        }
    }
    lemma_scope_by_names(opened, closed, CLASS_SELF_NAME@, opened.len() as int, 0);
    lemma_scope_of(after.references, CLASS_SELF_NAME@, depth, 0);
    reveal_with_fuel(scope_of, 2);
    assert(entered[depth - 1] == Seq::<NamedReference>::empty());
    assert(scope_of(entered, CLASS_SELF_NAME@, depth, 0) == scope_of(
        entered,
        CLASS_SELF_NAME@,
        depth - 1,
        0,
    ));
    lemma_scope_prefix(entered, closed, CLASS_SELF_NAME@, depth - 1, 0);
    assert(scope_of(entered, CLASS_SELF_NAME@, depth, 0) == Some(handler));
    lemma_position_by_names(opened[handler], closed[handler], CLASS_SELF_NAME@, 0);
    assert(closed[handler] == entered[handler]);
    assert(entered[handler] == after.references.stack@[handler]@);
    let class = reference_in(opened, location)->Class_0;
    let joined = entered[handler][index].reference->Class_0;
    lemma_position_of_added(class.references@, joined.references@.last(), 0);
    assert(class.references@.push(joined.references@.last()) == joined.references@);
    reveal_with_fuel(member_of, 3);
    let raw = position_in(opened[handler], CLASS_SELF_NAME@, 0)->0;
    assert(opened[handler].len() == after.references.stack@[handler].len());
    assert(raw as usize as int == raw);
}

} // verus!
