//! Shared data contracts: language tags, tag sets, account policies, the
//! blob metadata codec and the filename sanitizer.
use vstd::prelude::*;

pub mod blob;
pub mod blog;
pub mod codec;
pub mod country;
pub mod digits;
pub mod error;
pub mod filename;
pub mod image;
pub mod markdown;
pub mod metadata;
pub mod policy;
pub mod project;
pub mod requirement;
pub mod tag;
pub mod text;
pub mod upload;
pub mod user;

verus! {

/// A transparent wrapper that lets the library give a foreign value its own
/// impls.
#[derive(Clone, Copy, Debug, PartialEq, Eq, Default)]
pub struct W<T>(pub T);

impl<T> W<T> {
    /// The wrapped value.
    pub fn into_inner(self) -> (r: T)
        ensures
            r == self.0,
    {
        self.0
    }
}

} // verus!
