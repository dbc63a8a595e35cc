//! An optional reference to a collaborator that may be missing.
use vstd::prelude::*;

verus! {

/// A reference that is either present or missing; users branch on presence
/// once per use.
#[derive(Clone, Copy, Debug, PartialEq, Eq)]
pub enum OptRef<T> {
    /// No value.
    Absent,
    /// The referenced value.
    Present(T),
}

impl<T> OptRef<T> {
    /// Wraps an `Option`.
    pub fn from_option(o: Option<T>) -> (r: OptRef<T>)
        ensures
            match o {
                Option::Some(v) => r == OptRef::Present(v),
                Option::None => r is Absent,
            },
    {
        match o {
            Option::Some(v) => OptRef::Present(v),
            Option::None => OptRef::Absent,
        }
    }

    /// Whether the reference is present.
    pub fn is_some(&self) -> (r: bool)
        ensures
            r == (self is Present),
    {
        match self {
            OptRef::Present(_) => true,
            OptRef::Absent => false,
        }
    }

    /// The referenced value; the reference must be present.
    pub fn tref(&self) -> (r: &T)
        requires
            self is Present,
        ensures
            OptRef::Present(*r) == *self,
    {
        match self {
            OptRef::Present(v) => v,
            OptRef::Absent => {
                proof {
                    assert(false);
                }
                unreached()
            },
        }
    }
}

} // verus!
