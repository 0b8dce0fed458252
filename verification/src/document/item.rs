//! One value or several.

use vstd::prelude::*;

verus! {

/// Either a single value or a list of values.
#[derive(Debug, Clone)]
pub enum Item<T> {
    Multiple(Vec<T>),
    Single(T),
}

} // verus!
