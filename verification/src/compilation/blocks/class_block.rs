//! Class declarations.
use vstd::prelude::*;
use crate::compilation::blocks::{
    not_open_error, not_open_message, BlockHandler, BlockType, Program, StackSizes,
};
use crate::compilation::reference_manager::class::ClassReference;
use crate::compilation::reference_manager::{
    already_exists_text,
    cannot_register_text,
    lemma_location_in,
    lemma_registered_with_offset_ok,
    location_in,
    position_in,
    reference_ok,
    NamedReference,
    Reference,
    ReferenceStack,
};
use crate::lexical_parsing::symbols::{Block, Symbol, CLASS_SELF_NAME};
use crate::memory::memory_manager::MemoryManager;

verus! {

/// A class declaration. A class holds its properties first and then its
/// methods: once a method has been declared, no property can follow.
pub struct ClassBlock {
    pub name: Option<String>,
    /// True until the first method is declared.
    pub properties_phase: bool,
    /// True after a line that declares a property, until the line has been
    /// accounted for.
    pub allow_line: bool,
}

pub open spec fn class_declaration_message() -> Seq<char> {
    "Class declaration must be formatted "@ + Block::Class.code_representation() + " [Name]"@
}

pub open spec fn class_name_message() -> Seq<char> {
    "Class names cannot have separators"@
}

pub open spec fn class_contents_message() -> Seq<char> {
    "Classes can only contain function or attributes (before the first function)"@
}

pub open spec fn class_missing_message() -> Seq<char> {
    "The class of the block is not registered"@
}

impl ClassBlock {
    /// True where the block has not been entered.
    pub open spec fn is_new(self) -> bool {
        self.name is None && self.properties_phase && !self.allow_line
    }

    /// True where `post` and `after` are what entering the block with the
    /// line `class name` comes to: an empty class with the given name is
    /// registered as `self` in the scope around the declaration, which is
    /// the scope next to the innermost one. Nothing is added to the
    /// program, and no scope is opened. Fails where there is no such scope,
    /// or where it holds a `self` already.
    pub open spec fn entered(
        pre: Self,
        post: Self,
        line: Seq<Symbol>,
        before: Program,
        after: Program,
        result: Result<(), String>,
    ) -> bool {
        if line.len() != 2 || !(line[1] is Name) {
            result is Err && result->Err_0@ == class_declaration_message()
        } else if line[1]->Name_0@.len() != 1 {
            result is Err && result->Err_0@ == class_name_message()
        } else {
            let scopes = before.references.scopes();
            if scopes.len() < 2 {
                result is Err && result->Err_0@ == cannot_register_text(CLASS_SELF_NAME@)
            } else if position_in(scopes[scopes.len() - 2], CLASS_SELF_NAME@, 0) is Some {
                result is Err && result->Err_0@ == already_exists_text(CLASS_SELF_NAME@)
            } else {
                let around = scopes.len() - 2;
                let registered = after.references.scopes()[around].last();
                &&& result is Ok
                &&& after.memory == before.memory
                &&& after.stack_sizes == before.stack_sizes
                &&& after.references.reference_depth_limit
                    == before.references.reference_depth_limit
                &&& after.references.scopes() == scopes.update(
                    around,
                    scopes[around].push(registered),
                )
                &&& registered.name@ == CLASS_SELF_NAME@
                &&& registered.reference matches Reference::Class(class)
                &&& class.name == line[1]->Name_0@[0]
                &&& class.references@.len() == 0
                &&& post.name == Some(line[1]->Name_0@[0])
                &&& post.properties_phase == pre.properties_phase
                &&& post.allow_line == pre.allow_line
            }
        }
    }

    /// True where `post` and `after` are what closing the block comes to:
    /// the class, known as `self` so far, is known by its own name from now
    /// on. Nothing is added to the program, and no scope is closed. Fails
    /// where the block has not been entered, or the class is not registered
    /// any more.
    pub open spec fn force_exited(
        pre: Self,
        post: Self,
        before: Program,
        after: Program,
        result: Result<(), String>,
    ) -> bool {
        if pre.name is None {
            result is Err && result->Err_0@ == not_open_message() && after == before && post == pre
        } else {
            let base = before.references.scopes();
            match location_in(base, seq![CLASS_SELF_NAME@], 0) {
                None => result is Err && result->Err_0@ == class_missing_message(),
                Some(location) => {
                    let handler = location.handler as int;
                    let index = location.index as int;
                    let scopes = after.references.scopes();
                    &&& result is Ok
                    &&& after.memory == before.memory
                    &&& after.stack_sizes == before.stack_sizes
                    &&& after.references.reference_depth_limit
                        == before.references.reference_depth_limit
                    &&& scopes == base.update(handler, base[handler].update(index, scopes[handler][index]))
                    &&& scopes[handler][index].name == pre.name->0
                    &&& scopes[handler][index].reference == base[handler][index].reference
                    &&& post.name is None
                    &&& post.properties_phase == pre.properties_phase
                    &&& post.allow_line == pre.allow_line
                },
            }
        }
    }

    /// A class block that has not been entered.
    pub fn new_block() -> (block: BlockHandler)
        ensures
            block matches BlockHandler::Class(inner) && inner.is_new(),
    {
        BlockHandler::Class(ClassBlock { name: None, properties_phase: true, allow_line: false })
    }

    /// Enters the block with the line that declares the class.
    pub fn on_entry(
        &mut self,
        _program_memory: &mut MemoryManager,
        reference_stack: &mut ReferenceStack,
        _stack_sizes: &mut StackSizes,
        symbol_line: &[Symbol],
    ) -> (result: Result<(), String>)
        requires
            old(reference_stack).well_formed(old(_program_memory)@.len()),
        ensures
            ClassBlock::entered(
                *old(self),
                *final(self),
                symbol_line@,
                Program {
                    memory: old(_program_memory)@,
                    stack_sizes: old(_stack_sizes)@,
                    references: *old(reference_stack),
                },
                Program {
                    memory: final(_program_memory)@,
                    stack_sizes: final(_stack_sizes)@,
                    references: *final(reference_stack),
                },
                result,
            ),
            final(_program_memory)@ == old(_program_memory)@,
            final(_stack_sizes)@ == old(_stack_sizes)@,
            result is Ok ==> final(reference_stack).well_formed(final(_program_memory)@.len()),
    {
        if symbol_line.len() != 2 {
            return Err(class_declaration_error());
        }
        let name: String = match &symbol_line[1] {
            Symbol::Name(name) => {
                if name.len() != 1 {
                    return Err(String::from_str("Class names cannot have separators"));
                }
                name[0].clone()
            },
            _ => {
                return Err(class_declaration_error());
            },
        };
        let ghost scopes = reference_stack.scopes();
        let ghost opened = *reference_stack;
        let class = Reference::Class(ClassReference::new_empty(name.clone()));
        let self_name = String::from_str(CLASS_SELF_NAME);
        proof {
            reveal_with_fuel(crate::compilation::reference_manager::dotted, 2);
            assert(reference_ok(class, _program_memory@.len()));
            if scopes.len() >= 2 {
                assert(opened.stack@[scopes.len() - 2]@ == scopes[scopes.len() - 2]);
            }
        }
        let result = reference_stack.register_reference_with_offset(class, self_name, 1);
        proof {
            lemma_registered_with_offset_ok(
                opened,
                *reference_stack,
                class,
                self_name,
                1,
                result,
                _program_memory@.len(),
            );
        }
        match result {
            Ok(_) => {},
            Err(message) => {
                return Err(message);
            },
        }
        proof {
            let around = scopes.len() - 2;
            assert(reference_stack.scopes()[around].last() == (NamedReference {
                name: self_name,
                reference: class,
            }));
        }
        self.name = Some(name);
        Ok(())
    }

    /// Closes the block.
    pub fn on_forced_exit(
        &mut self,
        _program_memory: &mut MemoryManager,
        reference_stack: &mut ReferenceStack,
        _stack_sizes: &mut StackSizes,
    ) -> (result: Result<(), String>)
        requires
            old(reference_stack).well_formed(old(_program_memory)@.len()),
        ensures
            ClassBlock::force_exited(
                *old(self),
                *final(self),
                Program {
                    memory: old(_program_memory)@,
                    stack_sizes: old(_stack_sizes)@,
                    references: *old(reference_stack),
                },
                Program {
                    memory: final(_program_memory)@,
                    stack_sizes: final(_stack_sizes)@,
                    references: *final(reference_stack),
                },
                result,
            ),
            final(_program_memory)@ == old(_program_memory)@,
            final(_stack_sizes)@ == old(_stack_sizes)@,
            result is Ok ==> final(reference_stack).well_formed(final(_program_memory)@.len()),
    {
        if self.name.is_none() {
            return Err(not_open_error());
        }
        let ghost base_references = *reference_stack;
        let ghost base = reference_stack.scopes();
        let mut self_name: Vec<String> = Vec::new();
        self_name.push(String::from_str(CLASS_SELF_NAME));
        proof {
            lemma_location_in(base_references, self_name@, 0);
            assert(crate::lexical_parsing::symbols::name_text(self_name@) =~= seq![
                CLASS_SELF_NAME@,
            ]);
        }
        let location = match reference_stack.locate(self_name.as_slice()) {
            Some(location) => location,
            None => {
                return Err(String::from_str("The class of the block is not registered"));
            },
        };
        let name = self.name.take().unwrap();
        reference_stack.rename_reference(&location, name);
        proof {
            let handler = location.handler as int;
            let index = location.index as int;
            let scopes = reference_stack.scopes();
            assert(scopes[handler] == reference_stack.stack@[handler]@);
            assert(base[handler] == base_references.stack@[handler]@);
            assert(scopes =~= base.update(
                handler,
                base[handler].update(index, scopes[handler][index]),
            )) by {
                assert forall|h: int| 0 <= h < base.len() implies #[trigger] scopes[h] == base.update(
                    handler,
                    base[handler].update(index, scopes[handler][index]),
                )[h] by {
                    assert(scopes[h] == reference_stack.stack@[h]@);
                    assert(base[h] == base_references.stack@[h]@);
                    if h == handler {
                        assert(scopes[h] =~= base[handler].update(index, scopes[handler][index]));
                    }
                }
            }
            assert forall|h: int, i: int|
                0 <= h < reference_stack.stack@.len() && 0 <= i
                    < reference_stack.stack@[h]@.len() implies reference_ok(
                #[trigger] reference_stack.stack@[h]@[i].reference,
                _program_memory@.len(),
            ) by {
                if h != handler {
                    assert(reference_stack.stack@[h] == base_references.stack@[h]);
                } else if i != index {
                    assert(reference_stack.stack@[h]@[i] == base_references.stack@[h]@[i]);
                } else {
                    assert(reference_ok(base_references.stack@[h]@[i].reference, _program_memory@.len()));
                }
            }
        }
        Ok(())
    }

    /// Accounts for a line or a block inside the class: a line that
    /// declares a property, which has been handed to `handle_line`, is
    /// accepted; a function block is accepted, and ends the properties;
    /// anything else is refused.
    pub fn update_sub_block(&mut self, block_type: Option<BlockType>) -> (result: Result<
        (),
        String,
    >)
        ensures
            final(self).name == old(self).name,
            !final(self).allow_line,
            old(self).allow_line ==> result is Ok && final(self).properties_phase == old(self).properties_phase,
            !old(self).allow_line && block_type == Some(BlockType::Function) ==> result is Ok
                && !final(self).properties_phase,
            !old(self).allow_line && block_type != Some(BlockType::Function) ==> result is Err
                && result->Err_0@ == class_contents_message() && final(self).properties_phase
                == old(self).properties_phase,
    {
        if self.allow_line {
            self.allow_line = false;
            return Ok(());
        }
        match block_type {
            Some(BlockType::Function) => {
                self.properties_phase = false;
                Ok(())
            },
            _ => Err(
                String::from_str(
                    "Classes can only contain function or attributes (before the first function)",
                ),
            ),
        }
    }

    /// Takes note of a line that declares a property.
    pub fn handle_line(&mut self, _line: &[Symbol]) -> (result: Result<(), String>)
        ensures
            result is Ok,
            final(self).allow_line,
            final(self).name == old(self).name,
            final(self).properties_phase == old(self).properties_phase,
    {
        self.allow_line = true;
        Ok(())
    }
}

fn class_declaration_error() -> (message: String)
    ensures
        message@ == class_declaration_message(),
{
    let mut message = String::from_str("Class declaration must be formatted ");
    message.append(Block::Class.get_code_representation());
    message.append(" [Name]");
    message
}

} // verus!
