//! Classes: a name and the members declared under it.
use vstd::prelude::*;
use crate::compilation::reference_manager::NamedReference;

verus! {

/// A class: a namespace that collects properties and methods.
pub struct ClassReference {
    pub name: String,
    pub references: Vec<NamedReference>,
}

impl ClassReference {
    /// A class without members.
    pub fn new_empty(name: String) -> (class: Self)
        ensures
            class.name == name,
            class.references@.len() == 0,
    {
        ClassReference { name, references: Vec::new() }
    }
}

} // verus!
