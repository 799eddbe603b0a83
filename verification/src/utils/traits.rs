//! The traits that options and presets share.

use vstd::prelude::*;
use crate::utils::errors::OxAgError;

verus! {

/// A value that can be derived from a seed.
pub trait FromSeed: Sized {
    /// This is the value derived from `seed`.
    spec fn seeded(&self, seed: u64) -> bool;

    fn new_from_seed(seed: u64) -> (r: Self)
        ensures
            r.seeded(seed),
    ;
}

/// A preset that stands for a value of `T`.
pub trait Loadable<T> {
    /// `value` is what the preset stands for.
    spec fn loads(&self, value: &T) -> bool;

    fn load(&self) -> (r: T)
        ensures
            self.loads(&r),
    ;
}

/// Data that may lie within other data.
pub trait Container<C> {
    spec fn within_spec(&self, range: &C) -> bool;

    fn within(&self, range: &C) -> (r: bool)
        ensures
            r == self.within_spec(range),
    ;
}

/// Options that can be checked before they are used.
pub trait Validator {
    /// What comes of validating the options.
    spec fn validation(&self) -> Result<(), OxAgError>;

    fn validate(&self) -> (r: Result<(), OxAgError>)
        ensures
            r == self.validation(),
    ;
}

} // verus!
