//! A value that is either borrowed or owned.
use vstd::prelude::*;

verus! {

/// Either a borrowed value or one that this holder owns.
pub enum RefOrBox<'a, T> {
    Ref(&'a T),
    Box(Box<T>),
}

impl<'a, T> RefOrBox<'a, T> {
    /// The value held, whichever way it is held.
    pub open spec fn value(self) -> T {
        match self {
            RefOrBox::Ref(inner) => *inner,
            RefOrBox::Box(inner) => *inner,
        }
    }

    /// Takes ownership of a value.
    pub fn from_owned(inner: T) -> (held: RefOrBox<'a, T>)
        ensures
            held is Box,
            held.value() == inner,
    {
        RefOrBox::Box(Box::new(inner))
    }

    /// Holds an already boxed value.
    pub fn from_box(inner: Box<T>) -> (held: RefOrBox<'a, T>)
        ensures
            held is Box,
            held.value() == *inner,
    {
        RefOrBox::Box(inner)
    }

    /// Holds a borrowed value.
    pub fn from_ref(inner: &'a T) -> (held: RefOrBox<'a, T>)
        ensures
            held is Ref,
            held.value() == *inner,
    {
        RefOrBox::Ref(inner)
    }

    /// A reference to the value held.
    pub fn as_ref(&self) -> (inner: &T)
        ensures
            *inner == self.value(),
    {
        match self {
            RefOrBox::Ref(inner) => inner,
            RefOrBox::Box(inner) => &**inner,
        }
    }
}

} // verus!
