//! The error taxonomy: caller/input errors (a bad color or card text) and
//! invariant violations (`InvalidCase`), both reported as typed values, and
//! `NoTaker` for an auction read before it is decided.

use vstd::prelude::*;

verus! {

#[derive(Debug, Eq, PartialEq)]
pub enum BeloteErrorKind {
    InvalidCase(String),
    InvalidColor(String),
    InvalidCard(String),
    InvalidValue(String),
    NoTaker,
}

/// Turn an occupied `Option` into the error the closure builds.
pub trait ErrOnSome {
    /// Whether the value is occupied, for the contract below.
    spec fn spec_occupied(&self) -> bool;

    fn err_on_some<E, F: FnOnce() -> Result<(), E>>(&self, f: F) -> (r: Result<(), E>)
        requires
            self.spec_occupied() ==> call_requires(f, ()),
        ensures
            !self.spec_occupied() ==> r is Ok,
            self.spec_occupied() ==> call_ensures(f, (), r),
    ;
}

impl<T> ErrOnSome for Option<T> {
    open spec fn spec_occupied(&self) -> bool {
        self is Some
    }

    fn err_on_some<E, F: FnOnce() -> Result<(), E>>(&self, f: F) -> (r: Result<(), E>) {
        match self {
            None => Ok(()),
            Some(_) => f(),
        }
    }
}

} // verus!
