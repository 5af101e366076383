//! The outcome of one attempt at something that may not be ready.
use vstd::prelude::*;

verus! {

/// A value, or the information that it is not available yet.
#[derive(Debug, PartialEq, Eq)]
pub enum Poll<T> {
    Ready(T),
    Pending,
}

} // verus!
