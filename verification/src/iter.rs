//! Selecting the single element of a collection.

use vstd::prelude::*;

verus! {

/// An error indicating that something went wrong when selecting from a
/// collection.
#[derive(Debug, Clone, PartialEq, Eq, Structural)]
pub enum IterError {
    /// The collection holds no item at all.
    ItemNotFound,
    /// The collection holds more than one item.
    MultipleFound,
}

/// The single item of the list: its first item when it holds exactly one,
/// an error otherwise.
pub fn single<T>(v: Vec<T>) -> (r: Result<T, IterError>)
    ensures
        v@.len() == 1 ==> (r matches Ok(x) && x == v@[0]),
        v@.len() == 0 ==> (r matches Err(e) && e is ItemNotFound),
        v@.len() > 1 ==> (r matches Err(e) && e is MultipleFound),
{
    let mut v = v;
    if v.len() == 0 {
        Err(IterError::ItemNotFound)
    } else if v.len() > 1 {
        Err(IterError::MultipleFound)
    } else {
        match v.pop() {
            Some(x) => Ok(x),
            None => Err(IterError::ItemNotFound),
        }
    }
}

} // verus!
