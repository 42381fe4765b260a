//! The names that are known while a program is compiled: variables,
//! functions and classes, in a stack of scopes.
use vstd::prelude::*;
use crate::compilation::types::Type;
use crate::compilation::types::boolean::BoolType;
use crate::lexical_parsing::symbols::{name_text, CLASS_SELF_NAME};
use crate::util::str_equal;

pub mod class;
pub mod function;

use class::ClassReference;
use function::FunctionReference;

verus! {

/// What a name stands for.
pub enum Reference {
    Variable(Type),
    Function(FunctionReference),
    Class(ClassReference),
}

/// A name and what it stands for.
pub struct NamedReference {
    pub name: String,
    pub reference: Reference,
}

/// The position of the first entry called `name`, from `from` on.
pub open spec fn position_in(references: Seq<NamedReference>, name: Seq<char>, from: int)
    -> Option<int>
    decreases references.len() - from,
{
    if from < 0 || from >= references.len() {
        None
    } else if references[from].name@ == name {
        Some(from)
    } else {
        position_in(references, name, from + 1)
    }
}

/// What is reached from `reference` by the parts of `path` from `from` on,
/// each part naming a member of the class reached before it.
pub open spec fn member_of(reference: Reference, path: Seq<String>, from: int) -> Option<
    Reference,
>
    decreases path.len() - from,
{
    if from < 0 {
        None
    } else if from >= path.len() {
        Some(reference)
    } else {
        match reference {
            Reference::Class(class) => match position_in(class.references@, path[from]@, 0) {
                Some(position) => member_of(class.references@[position].reference, path, from + 1),
                None => None,
            },
            _ => None,
        }
    }
}

/// True where every variable reached from `reference` has a cell, and every
/// function reached from it is well formed for a program of `length` bytes.
pub open spec fn reference_ok(reference: Reference, length: nat) -> bool
    decreases reference,
{
    match reference {
        Reference::Variable(variable) => variable.is_allocated(),
        Reference::Function(function) => function.well_formed(length),
        Reference::Class(class) => forall|i: int|
            0 <= i < class.references@.len() ==> reference_ok(
                #[trigger] class.references@[i].reference,
                length,
            ),
    }
}

/// The parts of a name joined by dots: the first `count` of them.
pub open spec fn dotted(path: Seq<String>, count: nat) -> Seq<char>
    decreases count,
{
    if count == 0 {
        Seq::empty()
    } else if count == 1 {
        path[0]@
    } else {
        dotted(path, (count - 1) as nat) + "."@ + path[count - 1]@
    }
}

/// The message for a name that stands for nothing that can be seen.
pub open spec fn not_found_message(path: Seq<String>) -> Seq<char> {
    "Reference '"@ + dotted(path, path.len()) + "' not found"@
}

/// The message for a name that is already taken in its scope.
pub open spec fn already_exists_message(path: Seq<String>) -> Seq<char> {
    already_exists_text(dotted(path, path.len()))
}

/// The message for a name that cannot be given to a reference.
pub open spec fn cannot_register_message(path: Seq<String>) -> Seq<char> {
    cannot_register_text(dotted(path, path.len()))
}

/// The message for a name, given as text, that is already taken.
pub open spec fn already_exists_text(name: Seq<char>) -> Seq<char> {
    "Reference '"@ + name + "' already exists"@
}

/// The message for a name, given as text, that cannot be given to a
/// reference.
pub open spec fn cannot_register_text(name: Seq<char>) -> Seq<char> {
    "Reference '"@ + name + "' cannot be registered"@
}

/// The message for a reference that is no variable.
pub open spec fn not_a_variable_message() -> Seq<char> {
    "Reference is not a variable"@
}

/// The message for a reference that is no function.
pub open spec fn not_a_function_message() -> Seq<char> {
    "Reference is not a function"@
}

/// The text of a dotted name.
pub fn dotted_name(path: &[String]) -> (text: String)
    ensures
        text@ == dotted(path@, path@.len()),
{
    let mut text = String::new();
    let mut i: usize = 0;
    while i < path.len()
        invariant
            i <= path@.len(),
            text@ == dotted(path@, i as nat),
        decreases path@.len() - i,
    {
        if i == 0 {
            let ghost before = text@;
            text.append(path[i].as_str());
            assert(text@ =~= path@[0]@);
        } else {
            text.append(".");
            text.append(path[i].as_str());
        }
        i = i + 1;
    }
    text
}

fn name_error(prefix: &str, path: &[String], suffix: &str) -> (message: String)
    ensures
        message@ == prefix@ + dotted(path@, path@.len()) + suffix@,
{
    let mut message = String::from_str(prefix);
    message.append(dotted_name(path).as_str());
    message.append(suffix);
    message
}

/// The position of the first entry called `name`.
pub fn find_position(references: &Vec<NamedReference>, name: &String) -> (position: Option<usize>)
    ensures
        position matches Some(found) ==> found < references@.len() && position_in(
            references@,
            name@,
            0,
        ) == Some(found as int),
        position is None ==> position_in(references@, name@, 0) is None,
{
    let mut i: usize = 0;
    while i < references.len()
        invariant
            i <= references@.len(),
            position_in(references@, name@, 0) == position_in(references@, name@, i as int),
        decreases references@.len() - i,
    {
        if references[i].name == *name {
            return Some(i);
        }
        i = i + 1;
    }
    None
}

/// What is reached from `reference` by the parts of `path` from `from` on.
pub fn find_member<'a>(reference: &'a Reference, path: &[String], from: usize) -> (member: Option<
    &'a Reference,
>)
    ensures
        match member_of(*reference, path@, from as int) {
            Some(found) => member is Some && *member->0 == found,
            None => member is None,
        },
    decreases path@.len() - from,
{
    if from >= path.len() {
        return Some(reference);
    }
    match reference {
        Reference::Class(class) => match find_position(&class.references, &path[from]) {
            Some(position) => find_member(&class.references[position].reference, path, from + 1),
            None => None,
        },
        _ => None,
    }
}

/// Whatever is reached from a well-formed reference is well formed.
pub proof fn lemma_member_ok(reference: Reference, path: Seq<String>, from: int, length: nat)
    requires
        reference_ok(reference, length),
        member_of(reference, path, from) is Some,
    ensures
        reference_ok(member_of(reference, path, from)->0, length),
    decreases path.len() - from,
{
    if 0 <= from < path.len() {
        match reference {
            Reference::Class(class) => {
                let position = position_in(class.references@, path[from]@, 0)->0;
                lemma_position_in_range(class.references@, path[from]@, 0);
                lemma_member_ok(class.references@[position].reference, path, from + 1, length);
            },
            _ => {},
        }
    }
}

/// A position that is found lies in the list, at or after the start of the
/// search, and holds the name.
pub proof fn lemma_position_in_range(references: Seq<NamedReference>, name: Seq<char>, from: int)
    ensures
        position_in(references, name, from) matches Some(position) ==> from <= position
            < references.len() && references[position].name@ == name,
    decreases references.len() - from,
{
    if 0 <= from < references.len() && references[from].name@ != name {
        lemma_position_in_range(references, name, from + 1);
    }
}

/// A reference that is well formed for a program stays so when the program
/// grows.
pub proof fn lemma_reference_ok_grows(reference: Reference, length: nat, longer: nat)
    requires
        reference_ok(reference, length),
        length <= longer,
    ensures
        reference_ok(reference, longer),
    decreases reference,
{
    match reference {
        Reference::Class(class) => {
            assert forall|i: int| 0 <= i < class.references@.len() implies reference_ok(
                #[trigger] class.references@[i].reference,
                longer,
            ) by {
                lemma_reference_ok_grows(class.references@[i].reference, length, longer);
            }
        },
        _ => {},
    }
}

impl Reference {
    /// The variable that the reference stands for.
    pub fn get_variable_ref(&self) -> (variable: Result<&Type, String>)
        ensures
            self is Variable ==> variable is Ok && *variable->Ok_0 == self->Variable_0,
            !(self is Variable) ==> variable is Err && variable->Err_0@
                == not_a_variable_message(),
    {
        match self {
            Reference::Variable(variable) => Ok(variable),
            _ => Err(String::from_str("Reference is not a variable")),
        }
    }

    /// The function that the reference stands for.
    pub fn get_function_ref(&self) -> (function: Result<&FunctionReference, String>)
        ensures
            self is Function ==> function is Ok && *function->Ok_0 == self->Function_0,
            !(self is Function) ==> function is Err && function->Err_0@
                == not_a_function_message(),
    {
        match self {
            Reference::Function(function) => Ok(function),
            _ => Err(String::from_str("Reference is not a function")),
        }
    }

    /// The variable that the reference stands for, by value.
    pub fn get_variable(self) -> (variable: Result<Type, String>)
        ensures
            self is Variable ==> variable == Ok::<Type, String>(self->Variable_0),
            !(self is Variable) ==> variable is Err && variable->Err_0@
                == not_a_variable_message(),
    {
        match self {
            Reference::Variable(variable) => Ok(variable),
            _ => Err(String::from_str("Reference is not a variable")),
        }
    }

    /// A copy of a reference that stands for a variable.
    pub fn clone_variable(&self) -> (copy: Result<Reference, String>)
        ensures
            self is Variable ==> copy is Ok && copy->Ok_0 is Variable
                && copy->Ok_0->Variable_0.type_symbol() == self->Variable_0.type_symbol() && (
            self->Variable_0.is_allocated() ==> copy->Ok_0 == *self),
            !(self is Variable) ==> copy is Err && copy->Err_0@ == not_a_variable_message(),
    {
        match self {
            Reference::Variable(variable) => Ok(Reference::Variable(variable.duplicate())),
            _ => Err(String::from_str("Reference is not a variable")),
        }
    }
}

/// Where a reference stands: the scope, the position in the scope, and, for
/// a member of a class, the position in the class.
pub struct Location {
    pub handler: usize,
    pub index: usize,
    pub member: Option<usize>,
}

/// The scopes that are open, innermost last, and the depth limit. The depth
/// of a scope is the number of scopes up to and including it, and a scope
/// whose depth is below the limit is hidden from lookup: with the limit at
/// the number of open scopes, the innermost scope alone is seen. The name
/// `self` is seen in every scope.
pub struct ReferenceStack {
    pub stack: Vec<Vec<NamedReference>>,
    pub reference_depth_limit: usize,
}

impl ReferenceStack {
    /// The innermost scope below `below` and not below `floor` that holds
    /// `name`.
    pub open spec fn handler_of(self, name: Seq<char>, below: int, floor: int) -> Option<int>
        decreases below,
    {
        if below <= floor || below <= 0 || below > self.stack@.len() {
            None
        } else if position_in(self.stack@[below - 1]@, name, 0) is Some {
            Some(below - 1)
        } else {
            self.handler_of(name, below - 1, floor)
        }
    }

    /// Where `path` leads among the scopes not below `floor`: to an entry of
    /// a scope, or to a member of a class that is an entry of a scope.
    pub open spec fn location_of(self, path: Seq<String>, floor: int) -> Option<Location> {
        if path.len() == 0 || path.len() > 2 {
            None
        } else {
            match self.handler_of(path[0]@, self.stack@.len() as int, floor) {
                None => None,
                Some(handler) => {
                    let index = position_in(self.stack@[handler]@, path[0]@, 0)->0;
                    let entry = self.stack@[handler]@[index];
                    if path.len() == 1 {
                        Some(
                            Location {
                                handler: handler as usize,
                                index: index as usize,
                                member: None,
                            },
                        )
                    } else {
                        match entry.reference {
                            Reference::Class(class) => match position_in(
                                class.references@,
                                path[1]@,
                                0,
                            ) {
                                Some(member) => Some(
                                    Location {
                                        handler: handler as usize,
                                        index: index as usize,
                                        member: Some(member as usize),
                                    },
                                ),
                                None => None,
                            },
                            _ => None,
                        }
                    }
                },
            }
        }
    }

    /// True where `location` names an entry of this stack.
    pub open spec fn holds(self, location: Location) -> bool {
        &&& location.handler < self.stack@.len()
        &&& location.index < self.stack@[location.handler as int]@.len()
        &&& location.member matches Some(member) ==> self.entry(location).reference is Class
            && member < self.entry(location).reference->Class_0.references@.len()
    }

    /// The entry of a scope that `location` names or passes through.
    pub open spec fn entry(self, location: Location) -> NamedReference {
        self.stack@[location.handler as int]@[location.index as int]
    }

    /// The reference at `location`.
    pub open spec fn reference_at(self, location: Location) -> Reference {
        match location.member {
            Some(member) => self.entry(location).reference->Class_0.references@[member as int].reference,
            None => self.entry(location).reference,
        }
    }

    /// The outermost scope in which `name` is looked for: the scope whose
    /// depth is the depth limit. The name `self` is looked for in every
    /// scope: a method sees its class through it, whatever the limit.
    pub open spec fn lowest_visible(self, name: Seq<char>) -> int {
        if name == CLASS_SELF_NAME@ || self.reference_depth_limit == 0 {
            0
        } else {
            self.reference_depth_limit - 1
        }
    }

    /// What `path` stands for, as seen from the innermost scope: the first
    /// part is looked for from the innermost scope outwards, down to the
    /// outermost scope that the depth limit leaves visible; each further
    /// part names a member of the class reached before it.
    pub open spec fn lookup(self, path: Seq<String>) -> Option<Reference> {
        if path.len() == 0 {
            None
        } else {
            match self.handler_of(
                path[0]@,
                self.stack@.len() as int,
                self.lowest_visible(path[0]@),
            ) {
                None => None,
                Some(handler) => member_of(
                    self.stack@[handler]@[position_in(
                        self.stack@[handler]@,
                        path[0]@,
                        0,
                    )->0].reference,
                    path,
                    1,
                ),
            }
        }
    }

    /// True where every reference of every scope is well formed for a
    /// program of `length` bytes.
    pub open spec fn well_formed(self, length: nat) -> bool {
        forall|handler: int, index: int|
            0 <= handler < self.stack@.len() && 0 <= index < self.stack@[handler]@.len()
                ==> reference_ok(#[trigger] self.stack@[handler]@[index].reference, length)
    }

    /// True where `other` has the same limit and the same scopes but for the
    /// scope `handler`.
    pub open spec fn same_but_handler(self, other: ReferenceStack, handler: int) -> bool {
        &&& self.reference_depth_limit == other.reference_depth_limit
        &&& self.stack@.len() == other.stack@.len()
        &&& forall|k: int|
            0 <= k < self.stack@.len() && k != handler ==> #[trigger] self.stack@[k]
                == other.stack@[k]
    }

    /// True where `other` is this stack but for the entry that `location`
    /// names or passes through, of which the name is kept.
    pub open spec fn same_but_entry(self, other: ReferenceStack, location: Location) -> bool {
        &&& self.same_but_handler(other, location.handler as int)
        &&& self.stack@[location.handler as int]@.len() == other.stack@[location.handler as int]@.len()
        &&& forall|m: int|
            0 <= m < self.stack@[location.handler as int]@.len() && m != location.index
                ==> #[trigger] self.stack@[location.handler as int]@[m]
                == other.stack@[location.handler as int]@[m]
    }

    /// True where `other` is this stack with `reference` in place of the
    /// reference at `location`.
    pub open spec fn replaced_at(self, other: ReferenceStack, location: Location, reference: Reference)
        -> bool {
        &&& self.same_but_entry(other, location)
        &&& other.holds(location)
        &&& other.entry(location).name == self.entry(location).name
        &&& other.reference_at(location) == reference
        &&& location.member matches Some(member) ==> {
            let before = self.entry(location).reference->Class_0;
            let after = other.entry(location).reference->Class_0;
            &&& after.name == before.name
            &&& after.references@.len() == before.references@.len()
            &&& after.references@[member as int].name == before.references@[member as int].name
            &&& forall|n: int|
                0 <= n < before.references@.len() && n != member
                    ==> #[trigger] after.references@[n] == before.references@[n]
        }
    }

    /// No scopes, and no limit.
    pub fn new() -> (stack: Self)
        ensures
            stack.stack@.len() == 0,
            stack.reference_depth_limit == 0,
    {
        ReferenceStack { stack: Vec::new(), reference_depth_limit: 0 }
    }

    /// Opens a scope.
    pub fn add_handler(&mut self)
        ensures
            final(self).stack@.len() == old(self).stack@.len() + 1,
            final(self).stack@.drop_last() == old(self).stack@,
            final(self).stack@.last()@.len() == 0,
            final(self).scopes() == old(self).scopes().push(Seq::empty()),
            final(self).reference_depth_limit == old(self).reference_depth_limit,
    {
        self.stack.push(Vec::new());
        assert(self.stack@.drop_last() =~= old(self).stack@);
        assert(self.scopes() =~= old(self).scopes().push(Seq::empty()));
    }

    /// Closes the innermost scope.
    pub fn remove_handler(&mut self)
        requires
            old(self).stack@.len() > 0,
        ensures
            final(self).stack@ == old(self).stack@.drop_last(),
            final(self).scopes() == old(self).scopes().drop_last(),
            final(self).reference_depth_limit == old(self).reference_depth_limit,
    {
        self.stack.pop();
        assert(self.scopes() =~= old(self).scopes().drop_last());
    }

    /// The number of open scopes.
    pub fn get_depth(&self) -> (depth: usize)
        ensures
            depth == self.stack@.len(),
    {
        self.stack.len()
    }

    /// The depth limit: the depth of the outermost scope that lookup can
    /// see.
    pub fn get_reference_depth_limit(&self) -> (limit: usize)
        ensures
            limit == self.reference_depth_limit,
    {
        self.reference_depth_limit
    }

    /// Hides from lookup the scopes whose depth is below `limit`.
    pub fn set_reference_depth_limit(&mut self, limit: usize)
        ensures
            final(self).stack == old(self).stack,
            final(self).reference_depth_limit == limit,
    {
        self.reference_depth_limit = limit;
    }

    /// The innermost scope.
    pub fn get_top_stack(&self) -> (top: &Vec<NamedReference>)
        requires
            self.stack@.len() > 0,
        ensures
            *top == self.stack@.last(),
    {
        &self.stack[self.stack.len() - 1]
    }

    fn find_handler(&self, name: &String, floor: usize) -> (found: Option<(usize, usize)>)
        ensures
            found matches Some((handler, index)) ==> handler < self.stack@.len() && index
                < self.stack@[handler as int]@.len() && self.handler_of(
                name@,
                self.stack@.len() as int,
                floor as int,
            ) == Some(handler as int) && position_in(self.stack@[handler as int]@, name@, 0)
                == Some(index as int),
            found is None ==> self.handler_of(name@, self.stack@.len() as int, floor as int)
                is None,
    {
        let mut below: usize = self.stack.len();
        while below > floor
            invariant
                below <= self.stack@.len(),
                self.handler_of(name@, self.stack@.len() as int, floor as int) == self.handler_of(
                    name@,
                    below as int,
                    floor as int,
                ),
            decreases below,
        {
            match find_position(&self.stack[below - 1], name) {
                Some(position) => {
                    return Some((below - 1, position));
                },
                None => {},
            }
            below = below - 1;
        }
        None
    }

    /// What `name` stands for, as seen from the innermost scope. Fails where
    /// it stands for nothing that can be seen.
    pub fn get_reference(&self, name: &[String]) -> (reference: Result<&Reference, String>)
        ensures
            match self.lookup(name@) {
                Some(found) => reference is Ok && *reference->Ok_0 == found,
                None => reference is Err && reference->Err_0@ == not_found_message(name@),
            },
    {
        if name.len() == 0 {
            return Err(name_error("Reference '", name, "' not found"));
        }
        let floor: usize = if self.reference_depth_limit == 0 || str_equal(
            name[0].as_str(),
            CLASS_SELF_NAME,
        ) {
            0
        } else {
            self.reference_depth_limit - 1
        };
        match self.find_handler(&name[0], floor) {
            Some((handler, index)) => {
                match find_member(&self.stack[handler][index].reference, name, 1) {
                    Some(found) => Ok(found),
                    None => Err(name_error("Reference '", name, "' not found")),
                }
            },
            None => Err(name_error("Reference '", name, "' not found")),
        }
    }

    /// Where `name` leads among all scopes, hidden or not.
    pub fn locate(&self, name: &[String]) -> (location: Option<Location>)
        ensures
            location == self.location_of(name@, 0),
            location matches Some(found) ==> self.holds(found),
    {
        let depth: usize = self.stack.len();
        if name.len() == 0 || name.len() > 2 {
            return None;
        }
        match self.find_handler(&name[0], 0) {
            None => None,
            Some((handler, index)) => {
                if name.len() == 1 {
                    Some(Location { handler, index, member: None })
                } else {
                    match &self.stack[handler][index].reference {
                        Reference::Class(class) => match find_position(
                            &class.references,
                            &name[1],
                        ) {
                            Some(member) => Some(Location { handler, index, member: Some(member) }),
                            None => None,
                        },
                        _ => None,
                    }
                }
            },
        }
    }

    /// Puts `reference` in place of the reference at `location`. Returns the
    /// reference that stood there.
    pub fn replace_reference(&mut self, location: &Location, reference: Reference) -> (replaced:
        Reference)
        requires
            old(self).holds(*location),
        ensures
            replaced == old(self).reference_at(*location),
            old(self).replaced_at(*final(self), *location, reference),
    {
        let mut entry = self.stack[location.handler].remove(location.index);
        let replaced = match location.member {
            None => {
                let replaced = entry.reference;
                entry.reference = reference;
                replaced
            },
            Some(member) => match entry.reference {
                Reference::Class(mut class) => {
                    let mut inner = class.references.remove(member);
                    let replaced = inner.reference;
                    inner.reference = reference;
                    class.references.insert(member, inner);
                    entry.reference = Reference::Class(class);
                    replaced
                },
                other => {
                    entry.reference = other;
                    reference
                },
            },
        };
        self.stack[location.handler].insert(location.index, entry);
        replaced
    }

    /// Gives the entry at `location` another name.
    pub fn rename_reference(&mut self, location: &Location, name: String)
        requires
            old(self).holds(*location),
            location.member is None,
        ensures
            old(self).same_but_entry(*final(self), *location),
            final(self).entry(*location).name == name,
            final(self).entry(*location).reference == old(self).entry(*location).reference,
    {
        let mut entry = self.stack[location.handler].remove(location.index);
        entry.name = name;
        self.stack[location.handler].insert(location.index, entry);
    }

    /// Where registering under `name` adds the reference: a name of one
    /// part goes to the innermost scope, a name of two parts to the class
    /// that the first part stands for in any scope; the name must be new
    /// where it is added.
    pub open spec fn registration(self, name: Seq<String>) -> Result<Option<Location>, Seq<char>> {
        if self.stack@.len() == 0 {
            Err(cannot_register_message(name))
        } else if name.len() == 1 {
            if position_in(self.stack@.last()@, name[0]@, 0) is Some {
                Err(already_exists_message(name))
            } else {
                Ok(None)
            }
        } else if name.len() == 2 {
            match self.location_of(name.take(1), 0) {
                Some(location) => if !(self.reference_at(location) is Class) {
                    Err(cannot_register_message(name))
                } else if position_in(
                    self.reference_at(location)->Class_0.references@,
                    name[1]@,
                    0,
                ) is Some {
                    Err(already_exists_message(name))
                } else {
                    Ok(Some(location))
                },
                None => Err(cannot_register_message(name)),
            }
        } else {
            Err(cannot_register_message(name))
        }
    }

    /// The scopes as plain lists, innermost last.
    pub open spec fn scopes(self) -> Seq<Seq<NamedReference>> {
        Seq::new(self.stack@.len(), |i: int| self.stack@[i]@)
    }

    /// True where `after` is this stack with `entry` added to the end of the
    /// scope `handler`.
    pub open spec fn added_to_handler(self, after: ReferenceStack, handler: int, entry: NamedReference)
        -> bool {
        &&& 0 <= handler < self.stack@.len()
        &&& after.reference_depth_limit == self.reference_depth_limit
        &&& after.scopes() == self.scopes().update(handler, self.scopes()[handler].push(entry))
    }

    /// True where `after` is this stack with `entry` added to the end of the
    /// class at `location`.
    pub open spec fn added_to_class(self, after: ReferenceStack, location: Location, entry: NamedReference)
        -> bool {
        &&& self.holds(location)
        &&& self.entry(location).reference is Class
        &&& self.same_but_entry(after, location)
        &&& after.entry(location).name == self.entry(location).name
        &&& after.entry(location).reference is Class
        &&& after.entry(location).reference->Class_0.name
            == self.entry(location).reference->Class_0.name
        &&& after.entry(location).reference->Class_0.references@
            == self.entry(location).reference->Class_0.references@.push(entry)
    }

    /// True where `result` and `after` are what registering `reference`
    /// under `name` in this stack comes to.
    pub open spec fn registered(
        self,
        after: ReferenceStack,
        reference: Reference,
        name: Seq<String>,
        result: Result<(), String>,
    ) -> bool {
        match self.registration(name) {
            Err(message) => result is Err && result->Err_0@ == message && after == self,
            Ok(None) => result is Ok && self.added_to_handler(
                after,
                self.stack@.len() - 1,
                NamedReference { name: name[0], reference },
            ),
            Ok(Some(location)) => result is Ok && self.added_to_class(
                after,
                location,
                NamedReference { name: name[1], reference },
            ),
        }
    }

    /// True where `result` and `after` are what registering `reference`
    /// under `name`, `offset` scopes outside the innermost one, comes to.
    pub open spec fn registered_with_offset(
        self,
        after: ReferenceStack,
        reference: Reference,
        name: String,
        offset: usize,
        result: Result<(), String>,
    ) -> bool {
        if offset >= self.stack@.len() {
            result is Err && result->Err_0@ == cannot_register_message(seq![name]) && after == self
        } else if position_in(self.stack@[self.stack@.len() - 1 - offset]@, name@, 0) is Some {
            result is Err && result->Err_0@ == already_exists_message(seq![name]) && after == self
        } else {
            result is Ok && self.added_to_handler(
                after,
                self.stack@.len() - 1 - offset,
                NamedReference { name, reference },
            )
        }
    }

    /// Registers `reference` under `name`: in the innermost scope for a name
    /// of one part, in the class that the first part stands for otherwise.
    /// Fails where the name is taken there.
    pub fn register_reference(&mut self, reference: Reference, name: Vec<String>) -> (result:
        Result<(), String>)
        ensures
            old(self).registered(*final(self), reference, name@, result),
    {
        let mut name = name;
        let ghost given = name@;
        let depth: usize = self.stack.len();
        if depth == 0 {
            return Err(name_error("Reference '", name.as_slice(), "' cannot be registered"));
        }
        if name.len() == 1 {
            if find_position(&self.stack[depth - 1], &name[0]).is_some() {
                return Err(name_error("Reference '", name.as_slice(), "' already exists"));
            }
            let last = name.pop().unwrap();
            self.stack[depth - 1].push(NamedReference { name: last, reference });
            assert(self.scopes() =~= old(self).scopes().update(
                depth - 1,
                old(self).scopes()[depth - 1].push(NamedReference { name: last, reference }),
            ));
            Ok(())
        } else if name.len() == 2 {
            let first = vstd::slice::slice_subrange(name.as_slice(), 0, 1);
            assert(first@ =~= given.take(1));
            match self.locate(first) {
                None => Err(name_error("Reference '", name.as_slice(), "' cannot be registered")),
                Some(location) => {
                    let taken = match &self.stack[location.handler][location.index].reference {
                        Reference::Class(class) => Some(
                            find_position(&class.references, &name[1]).is_some(),
                        ),
                        _ => None,
                    };
                    match taken {
                        None => Err(
                            name_error("Reference '", name.as_slice(), "' cannot be registered"),
                        ),
                        Some(true) => Err(
                            name_error("Reference '", name.as_slice(), "' already exists"),
                        ),
                        Some(false) => {
                            let last = name.pop().unwrap();
                            let mut entry = self.stack[location.handler].remove(location.index);
                            match entry.reference {
                                Reference::Class(mut class) => {
                                    class.references.push(NamedReference { name: last, reference });
                                    entry.reference = Reference::Class(class);
                                },
                                other => {
                                    entry.reference = other;
                                },
                            }
                            self.stack[location.handler].insert(location.index, entry);
                            Ok(())
                        },
                    }
                },
            }
        } else {
            Err(name_error("Reference '", name.as_slice(), "' cannot be registered"))
        }
    }

    /// Registers `reference` under `name` in the scope that lies `offset`
    /// scopes outside the innermost one. Fails where there is no such
    /// scope, or the name is taken there.
    pub fn register_reference_with_offset(
        &mut self,
        reference: Reference,
        name: String,
        offset: usize,
    ) -> (result: Result<(), String>)
        ensures
            old(self).registered_with_offset(*final(self), reference, name, offset, result),
    {
        if offset >= self.stack.len() {
            let mut path: Vec<String> = Vec::new();
            path.push(name);
            assert(path@ =~= seq![name]);
            return Err(name_error("Reference '", path.as_slice(), "' cannot be registered"));
        }
        let handler: usize = self.stack.len() - 1 - offset;
        if find_position(&self.stack[handler], &name).is_some() {
            let mut path: Vec<String> = Vec::new();
            path.push(name);
            assert(path@ =~= seq![name]);
            return Err(name_error("Reference '", path.as_slice(), "' already exists"));
        }
        self.stack[handler].push(NamedReference { name, reference });
        assert(self.scopes() =~= old(self).scopes().update(
            handler as int,
            old(self).scopes()[handler as int].push(NamedReference { name, reference }),
        ));
        Ok(())
    }
}

/// Adding a well-formed reference to a scope of a well-formed stack leaves
/// the stack well formed.
pub proof fn lemma_added_to_handler_ok(
    before: ReferenceStack,
    after: ReferenceStack,
    handler: int,
    entry: NamedReference,
    length: nat,
)
    requires
        before.well_formed(length),
        reference_ok(entry.reference, length),
        before.added_to_handler(after, handler, entry),
    ensures
        after.well_formed(length),
{
    assert(after.scopes().len() == before.scopes().len());
    assert forall|h: int, index: int|
        0 <= h < after.stack@.len() && 0 <= index < after.stack@[h]@.len() implies reference_ok(
        #[trigger] after.stack@[h]@[index].reference,
        length,
    ) by {
        assert(after.scopes()[h] == after.stack@[h]@);
        assert(before.scopes()[h] == before.stack@[h]@);
        if h != handler {
            assert(after.stack@[h]@[index] == before.stack@[h]@[index]);
        } else if index < before.stack@[h]@.len() {
            assert(after.stack@[h]@[index] == before.stack@[h]@[index]);
        }
    }
}

/// Adding a well-formed reference to a class of a well-formed stack leaves
/// the stack well formed.
pub proof fn lemma_added_to_class_ok(
    before: ReferenceStack,
    after: ReferenceStack,
    location: Location,
    entry: NamedReference,
    length: nat,
)
    requires
        before.well_formed(length),
        reference_ok(entry.reference, length),
        before.added_to_class(after, location, entry),
    ensures
        after.well_formed(length),
{
    assert forall|h: int, index: int|
        0 <= h < after.stack@.len() && 0 <= index < after.stack@[h]@.len() implies reference_ok(
        #[trigger] after.stack@[h]@[index].reference,
        length,
    ) by {
        if h != location.handler {
            assert(after.stack@[h] == before.stack@[h]);
        } else if index != location.index {
            assert(after.stack@[h]@[index] == before.stack@[h]@[index]);
        } else {
            let old_class = before.stack@[h]@[index].reference->Class_0;
            let new_class = after.stack@[h]@[index].reference->Class_0;
            assert(reference_ok(before.stack@[h]@[index].reference, length));
            assert forall|i: int| 0 <= i < new_class.references@.len() implies reference_ok(
                #[trigger] new_class.references@[i].reference,
                length,
            ) by {
                if i < old_class.references@.len() {
                    assert(new_class.references@[i] == old_class.references@[i]);
                    assert(reference_ok(old_class.references@[i].reference, length));
                } else {
                    assert(new_class.references@[i] == entry);
                }
            }
        }
    }
}

/// Registering a well-formed reference in a well-formed stack leaves the
/// stack well formed.
pub proof fn lemma_registered_ok(
    before: ReferenceStack,
    after: ReferenceStack,
    reference: Reference,
    name: Seq<String>,
    result: Result<(), String>,
    length: nat,
)
    requires
        before.well_formed(length),
        reference_ok(reference, length),
        before.registered(after, reference, name, result),
    ensures
        after.well_formed(length),
{
    match before.registration(name) {
        Err(_) => {},
        Ok(None) => {
            lemma_added_to_handler_ok(
                before,
                after,
                before.stack@.len() - 1,
                NamedReference { name: name[0], reference },
                length,
            );
        },
        Ok(Some(location)) => {
            lemma_added_to_class_ok(
                before,
                after,
                location,
                NamedReference { name: name[1], reference },
                length,
            );
        },
    }
}

/// Registering a well-formed reference in a scope of a well-formed stack
/// leaves the stack well formed.
pub proof fn lemma_registered_with_offset_ok(
    before: ReferenceStack,
    after: ReferenceStack,
    reference: Reference,
    name: String,
    offset: usize,
    result: Result<(), String>,
    length: nat,
)
    requires
        before.well_formed(length),
        reference_ok(reference, length),
        before.registered_with_offset(after, reference, name, offset, result),
    ensures
        after.well_formed(length),
{
    if offset < before.stack@.len() && !(position_in(
        before.stack@[before.stack@.len() - 1 - offset]@,
        name@,
        0,
    ) is Some) {
        lemma_added_to_handler_ok(
            before,
            after,
            before.stack@.len() - 1 - offset,
            NamedReference { name, reference },
            length,
        );
    }
}

/// A reference that holds nothing, to stand in a place while what stood
/// there is worked on.
pub fn placeholder() -> (reference: Reference)
    ensures
        reference == Reference::Variable(Type::Boolean(BoolType { address: None })),
{
    Reference::Variable(Type::Boolean(BoolType::new()))
}

/// A scope that is found lies among the scopes searched and holds the name.
pub proof fn lemma_handler_of_range(stack: ReferenceStack, name: Seq<char>, below: int, floor: int)
    ensures
        stack.handler_of(name, below, floor) matches Some(handler) ==> floor <= handler < below
            && 0 <= handler < stack.stack@.len() && position_in(stack.stack@[handler]@, name, 0)
            is Some,
    decreases below,
{
    if !(below <= floor || below <= 0 || below > stack.stack@.len()) {
        if !(position_in(stack.stack@[below - 1]@, name, 0) is Some) {
            lemma_handler_of_range(stack, name, below - 1, floor);
        }
    }
}

/// Whatever a name stands for in a well-formed stack is well formed: a
/// variable that is found has a cell.
pub proof fn lemma_lookup_ok(stack: ReferenceStack, path: Seq<String>, length: nat)
    requires
        stack.well_formed(length),
        stack.lookup(path) is Some,
    ensures
        reference_ok(stack.lookup(path)->0, length),
{
    let limit = stack.lowest_visible(path[0]@);
    lemma_handler_of_range(stack, path[0]@, stack.stack@.len() as int, limit);
    let handler = stack.handler_of(path[0]@, stack.stack@.len() as int, limit)->0;
    lemma_position_in_range(stack.stack@[handler]@, path[0]@, 0);
    let index = position_in(stack.stack@[handler]@, path[0]@, 0)->0;
    assert(reference_ok(stack.stack@[handler]@[index].reference, length));
    lemma_member_ok(stack.stack@[handler]@[index].reference, path, 1, length);
}

/// A stack that is well formed for a program stays so when the program
/// grows.
pub proof fn lemma_well_formed_grows(stack: ReferenceStack, length: nat, longer: nat)
    requires
        stack.well_formed(length),
        length <= longer,
    ensures
        stack.well_formed(longer),
{
    assert forall|handler: int, index: int|
        0 <= handler < stack.stack@.len() && 0 <= index < stack.stack@[handler]@.len()
        implies reference_ok(#[trigger] stack.stack@[handler]@[index].reference, longer) by {
        lemma_reference_ok_grows(stack.stack@[handler]@[index].reference, length, longer);
    }
}

/// The innermost of the scopes below `below` and not below `floor` that
/// holds `name`.
pub open spec fn scope_of(
    scopes: Seq<Seq<NamedReference>>,
    name: Seq<char>,
    below: int,
    floor: int,
) -> Option<int>
    decreases below,
{
    if below <= floor || below <= 0 || below > scopes.len() {
        None
    } else if position_in(scopes[below - 1], name, 0) is Some {
        Some(below - 1)
    } else {
        scope_of(scopes, name, below - 1, floor)
    }
}

/// Where a name of one or two parts leads among the scopes not below
/// `floor`.
pub open spec fn location_in(scopes: Seq<Seq<NamedReference>>, path: Seq<Seq<char>>, floor: int)
    -> Option<Location> {
    if path.len() == 0 || path.len() > 2 {
        None
    } else {
        match scope_of(scopes, path[0], scopes.len() as int, floor) {
            None => None,
            Some(handler) => {
                let index = position_in(scopes[handler], path[0], 0)->0;
                if path.len() == 1 {
                    Some(Location { handler: handler as usize, index: index as usize, member: None })
                } else {
                    match scopes[handler][index].reference {
                        Reference::Class(class) => match position_in(class.references@, path[1], 0) {
                            Some(member) => Some(
                                Location {
                                    handler: handler as usize,
                                    index: index as usize,
                                    member: Some(member as usize),
                                },
                            ),
                            None => None,
                        },
                        _ => None,
                    }
                }
            },
        }
    }
}

/// The reference at `location` of the scopes.
pub open spec fn reference_in(scopes: Seq<Seq<NamedReference>>, location: Location) -> Reference {
    let entry = scopes[location.handler as int][location.index as int];
    match location.member {
        Some(member) => entry.reference->Class_0.references@[member as int].reference,
        None => entry.reference,
    }
}

/// True where `after` holds the same scopes, entries and names as `before`,
/// and the same references but for that at `location`.
pub open spec fn same_but_reference(
    before: Seq<Seq<NamedReference>>,
    after: Seq<Seq<NamedReference>>,
    location: Location,
) -> bool {
    let handler = location.handler as int;
    let index = location.index as int;
    &&& after.len() == before.len()
    &&& forall|k: int| 0 <= k < before.len() && k != handler ==> #[trigger] after[k] == before[k]
    &&& after[handler].len() == before[handler].len()
    &&& forall|m: int|
        0 <= m < before[handler].len() && m != index ==> #[trigger] after[handler][m]
            == before[handler][m]
    &&& after[handler][index].name == before[handler][index].name
    &&& location.member matches Some(member) ==> {
        let old_class = before[handler][index].reference->Class_0;
        let new_class = after[handler][index].reference->Class_0;
        &&& after[handler][index].reference is Class
        &&& new_class.name == old_class.name
        &&& new_class.references@.len() == old_class.references@.len()
        &&& new_class.references@[member as int].name == old_class.references@[member as int].name
        &&& forall|n: int|
            0 <= n < old_class.references@.len() && n != member
                ==> #[trigger] new_class.references@[n] == old_class.references@[n]
    }
}

/// True where the two scopes hold the same names in the same order.
pub open spec fn same_names(first: Seq<NamedReference>, second: Seq<NamedReference>) -> bool {
    &&& first.len() == second.len()
    &&& forall|i: int| 0 <= i < first.len() ==> (#[trigger] first[i]).name@ == second[i].name@
}

/// Where a name stands in a scope depends on the names of the scope alone.
pub proof fn lemma_position_by_names(
    first: Seq<NamedReference>,
    second: Seq<NamedReference>,
    name: Seq<char>,
    from: int,
)
    requires
        same_names(first, second),
    ensures
        position_in(first, name, from) == position_in(second, name, from),
    decreases first.len() - from,
{
    if 0 <= from < first.len() {
        assert(first[from].name@ == second[from].name@);
        if first[from].name@ != name {
            lemma_position_by_names(first, second, name, from + 1);
        }
    }
}

/// The scope that holds a name depends on the names of the scopes alone.
pub proof fn lemma_scope_by_names(
    first: Seq<Seq<NamedReference>>,
    second: Seq<Seq<NamedReference>>,
    name: Seq<char>,
    below: int,
    floor: int,
)
    requires
        first.len() == second.len(),
        forall|k: int| 0 <= k < first.len() ==> same_names(#[trigger] first[k], second[k]),
    ensures
        scope_of(first, name, below, floor) == scope_of(second, name, below, floor),
    decreases below,
{
    if !(below <= floor || below <= 0 || below > first.len()) {
        assert(same_names(first[below - 1], second[below - 1]));
        lemma_position_by_names(first[below - 1], second[below - 1], name, 0);
        lemma_scope_by_names(first, second, name, below - 1, floor);
    }
}

/// The scope that holds a name lies below the bound of the search, and holds
/// the name.
pub proof fn lemma_scope_range(
    scopes: Seq<Seq<NamedReference>>,
    name: Seq<char>,
    below: int,
    floor: int,
)
    ensures
        scope_of(scopes, name, below, floor) matches Some(handler) ==> floor <= handler < below
            && handler < scopes.len() && 0 <= handler && position_in(scopes[handler], name, 0)
            is Some,
    decreases below,
{
    if !(below <= floor || below <= 0 || below > scopes.len()) {
        if !(position_in(scopes[below - 1], name, 0) is Some) {
            lemma_scope_range(scopes, name, below - 1, floor);
        }
    }
}

/// The scope that holds a name among the first scopes is the same in any
/// stack that starts with these scopes.
pub proof fn lemma_scope_prefix(
    longer: Seq<Seq<NamedReference>>,
    shorter: Seq<Seq<NamedReference>>,
    name: Seq<char>,
    below: int,
    floor: int,
)
    requires
        shorter.len() <= longer.len(),
        below <= shorter.len(),
        forall|k: int| 0 <= k < shorter.len() ==> #[trigger] longer[k] == shorter[k],
    ensures
        scope_of(longer, name, below, floor) == scope_of(shorter, name, below, floor),
    decreases below,
{
    if !(below <= floor || below <= 0) {
        assert(longer[below - 1] == shorter[below - 1]);
        lemma_scope_prefix(longer, shorter, name, below - 1, floor);
    }
}

/// An entry added to a scope under a name that the scope does not hold is
/// the entry that the name stands for.
pub proof fn lemma_position_of_added(
    references: Seq<NamedReference>,
    entry: NamedReference,
    from: int,
)
    requires
        0 <= from <= references.len(),
        position_in(references, entry.name@, from) is None,
    ensures
        position_in(references.push(entry), entry.name@, from) == Some(references.len() as int),
    decreases references.len() - from,
{
    let longer = references.push(entry);
    if from < references.len() {
        assert(longer[from] == references[from]);
        lemma_position_of_added(references, entry, from + 1);
    } else {
        assert(longer[from] == entry);
    }
}

/// The scope that holds a name is the same whether the scopes are taken
/// from the stack or as plain lists.
pub proof fn lemma_scope_of(stack: ReferenceStack, name: Seq<char>, below: int, floor: int)
    ensures
        stack.handler_of(name, below, floor) == scope_of(stack.scopes(), name, below, floor),
    decreases below,
{
    if !(below <= floor || below <= 0 || below > stack.stack@.len()) {
        assert(stack.scopes()[below - 1] == stack.stack@[below - 1]@);
        lemma_scope_of(stack, name, below - 1, floor);
    }
}

/// Where a name leads is the same whether the scopes are taken from the
/// stack or as plain lists.
pub proof fn lemma_location_in(stack: ReferenceStack, path: Seq<String>, floor: int)
    ensures
        stack.location_of(path, floor) == location_in(stack.scopes(), name_text(path), floor),
        stack.location_of(path, floor) matches Some(location) ==> stack.holds(location)
            && stack.reference_at(location) == reference_in(stack.scopes(), location),
{
    if !(path.len() == 0 || path.len() > 2) {
        lemma_scope_of(stack, path[0]@, stack.stack@.len() as int, floor);
        lemma_handler_of_range(stack, path[0]@, stack.stack@.len() as int, floor);
        match stack.handler_of(path[0]@, stack.stack@.len() as int, floor) {
            Some(handler) => {
                assert(stack.scopes()[handler] == stack.stack@[handler]@);
                lemma_position_in_range(stack.stack@[handler]@, path[0]@, 0);
                assert(stack.stack@.len() == stack.stack.len());
                assert(stack.stack@[handler]@.len() == stack.stack@[handler].len());
                if path.len() == 2 {
                    let index = position_in(stack.stack@[handler]@, path[0]@, 0)->0;
                    match stack.stack@[handler]@[index].reference {
                        Reference::Class(class) => {
                            lemma_position_in_range(class.references@, path[1]@, 0);
                            assert(class.references@.len() == class.references.len());
                        },
                        _ => {},
                    }
                }
            },
            None => {},
        }
    }
}

/// The reference at a place of a well-formed stack is well formed.
pub proof fn lemma_reference_at_ok(stack: ReferenceStack, location: Location, length: nat)
    requires
        stack.well_formed(length),
        stack.holds(location),
    ensures
        reference_ok(stack.reference_at(location), length),
{
    assert(reference_ok(stack.entry(location).reference, length));
}

/// Putting a well-formed reference in a place of a well-formed stack leaves
/// the stack well formed.
pub proof fn lemma_replaced_ok(
    before: ReferenceStack,
    after: ReferenceStack,
    location: Location,
    reference: Reference,
    length: nat,
)
    requires
        before.well_formed(length),
        before.holds(location),
        before.replaced_at(after, location, reference),
        reference_ok(reference, length),
    ensures
        after.well_formed(length),
{
    assert forall|h: int, index: int|
        0 <= h < after.stack@.len() && 0 <= index < after.stack@[h]@.len() implies reference_ok(
        #[trigger] after.stack@[h]@[index].reference,
        length,
    ) by {
        if h != location.handler {
            assert(after.stack@[h] == before.stack@[h]);
        } else if index != location.index {
            assert(after.stack@[h]@[index] == before.stack@[h]@[index]);
        } else {
            match location.member {
                None => {},
                Some(member) => {
                    let old_class = before.stack@[h]@[index].reference->Class_0;
                    let new_class = after.stack@[h]@[index].reference->Class_0;
                    assert(reference_ok(before.stack@[h]@[index].reference, length));
                    assert forall|i: int|
                        0 <= i < new_class.references@.len() implies reference_ok(
                        #[trigger] new_class.references@[i].reference,
                        length,
                    ) by {
                        if i != member {
                            assert(new_class.references@[i] == old_class.references@[i]);
                            assert(reference_ok(old_class.references@[i].reference, length));
                        }
                    }
                },
            }
        }
    }
}

/// A stack without its innermost scope is well formed where the stack is.
pub proof fn lemma_shorter_ok(before: ReferenceStack, after: ReferenceStack, length: nat)
    requires
        before.well_formed(length),
        before.stack@.len() > 0,
        after.stack@ == before.stack@.drop_last(),
    ensures
        after.well_formed(length),
{
    assert forall|h: int, index: int|
        0 <= h < after.stack@.len() && 0 <= index < after.stack@[h]@.len() implies reference_ok(
        #[trigger] after.stack@[h]@[index].reference,
        length,
    ) by {
        assert(after.stack@[h] == before.stack@[h]);
    }
}

/// A stack with one more scope, which is empty, is well formed where the
/// stack is.
pub proof fn lemma_longer_ok(before: ReferenceStack, after: ReferenceStack, length: nat)
    requires
        before.well_formed(length),
        after.stack@.len() > 0,
        after.stack@.drop_last() == before.stack@,
        after.stack@.last()@.len() == 0,
    ensures
        after.well_formed(length),
{
    assert forall|h: int, index: int|
        0 <= h < after.stack@.len() && 0 <= index < after.stack@[h]@.len() implies reference_ok(
        #[trigger] after.stack@[h]@[index].reference,
        length,
    ) by {
        if h == after.stack@.len() - 1 {
            assert(after.stack@[h] == after.stack@.last());
        } else {
            assert(after.stack@.drop_last()[h] == after.stack@[h]);
            assert(after.stack@[h] == before.stack@[h]);
            assert(reference_ok(before.stack@[h]@[index].reference, length));
        }
    }
}

/// The scope that holds a name above a floor is the innermost that holds
/// it at all.
pub proof fn lemma_handler_of_floor(stack: ReferenceStack, name: Seq<char>, below: int, floor: int)
    requires
        0 <= floor,
        stack.handler_of(name, below, floor) is Some,
    ensures
        stack.handler_of(name, below, 0) == stack.handler_of(name, below, floor),
    decreases below,
{
    if !(below <= floor || below <= 0 || below > stack.stack@.len()) {
        if !(position_in(stack.stack@[below - 1]@, name, 0) is Some) {
            lemma_handler_of_floor(stack, name, below - 1, floor);
        }
    }
}

/// A name of one or two parts that can be seen leads, among all scopes, to
/// what it stands for.
pub proof fn lemma_visible_location(stack: ReferenceStack, path: Seq<String>)
    requires
        1 <= path.len() <= 2,
        stack.lookup(path) is Some,
    ensures
        stack.location_of(path, 0) matches Some(location) && stack.holds(location)
            && stack.reference_at(location) == stack.lookup(path)->0,
{
    let depth = stack.stack@.len() as int;
    let limit = stack.lowest_visible(path[0]@);
    lemma_handler_of_floor(stack, path[0]@, depth, limit);
    lemma_handler_of_range(stack, path[0]@, depth, limit);
    let handler = stack.handler_of(path[0]@, depth, limit)->0;
    lemma_position_in_range(stack.stack@[handler]@, path[0]@, 0);
    let index = position_in(stack.stack@[handler]@, path[0]@, 0)->0;
    assert(stack.stack@.len() == stack.stack.len());
    assert(stack.stack@[handler]@.len() == stack.stack@[handler].len());
    if path.len() == 2 {
        reveal_with_fuel(member_of, 3);
        match stack.stack@[handler]@[index].reference {
            Reference::Class(class) => {
                lemma_position_in_range(class.references@, path[1]@, 0);
                assert(class.references@.len() == class.references.len());
            },
            _ => {},
        }
    } else {
        reveal_with_fuel(member_of, 2);
    }
}

impl ReferenceStack {
    /// Adds a call site to those that wait for the body of the function at
    /// `location` to end. Returns `false`, and changes nothing, where no
    /// function stands there.
    pub fn add_incomplete_function_call(
        &mut self,
        location: &Location,
        call: function::IncompleteFunctionCall,
    ) -> (added: bool)
        requires
            old(self).holds(*location),
        ensures
            added == (old(self).reference_at(*location) is Function),
            !added ==> *final(self) == *old(self),
            final(self).reference_depth_limit == old(self).reference_depth_limit,
            final(self).stack@.len() == old(self).stack@.len(),
            added ==> {
                let before = old(self).reference_at(*location)->Function_0;
                &&& same_but_reference(old(self).scopes(), final(self).scopes(), *location)
                &&& final(self).holds(*location)
                &&& final(self).reference_at(*location) matches Reference::Function(after)
                &&& after.incomplete_function_calls@ == before.incomplete_function_calls@.push(
                    call,
                )
                &&& after.start_position == before.start_position
                &&& after.return_pointer == before.return_pointer
                &&& after.parameters == before.parameters
                &&& after.stack_size == before.stack_size
            },
            forall|length: nat|
                old(self).well_formed(length) && call.end() <= length && (old(self).reference_at(
                    *location,
                ) matches Reference::Function(before) && before.accepts(call))
                    ==> final(self).well_formed(length),
    {
        let is_function = match location.member {
            None => match &self.stack[location.handler][location.index].reference {
                Reference::Function(_) => true,
                _ => false,
            },
            Some(member) => match &self.stack[location.handler][location.index].reference {
                Reference::Class(class) => match &class.references[member].reference {
                    Reference::Function(_) => true,
                    _ => false,
                },
                _ => false,
            },
        };
        if !is_function {
            return false;
        }
        let taken = self.replace_reference(location, placeholder());
        match taken {
            Reference::Function(mut function) => {
                let ghost before = function;
                function.add_incomplete_function_call(call);
                let ghost after = Reference::Function(function);
                self.replace_reference(location, Reference::Function(function));
                proof {
                    assert(old(self).replaced_at(*self, *location, after));
                    assert(same_but_reference(old(self).scopes(), self.scopes(), *location)) by {
                        assert forall|h: int|
                            0 <= h < self.stack@.len() implies #[trigger] self.scopes()[h]
                            == self.stack@[h]@ by {}
                        assert forall|h: int|
                            0 <= h < self.stack@.len() implies #[trigger] old(self).scopes()[h]
                            == old(self).stack@[h]@ by {}
                    }
                    assert forall|length: nat|
                        old(self).well_formed(length) && call.end() <= length && before.accepts(
                            call,
                        ) implies self.well_formed(length) by {
                        lemma_reference_at_ok(*old(self), *location, length);
                        assert(reference_ok(after, length));
                        lemma_replaced_ok(*old(self), *self, *location, after, length);
                    }
                }
                true
            },
            other => {
                self.replace_reference(location, other);
                true
            },
        }
    }
}

} // verus!
