//! The shape selectors, as unit structs, so `attribute_kind::MetaList` resolves as a type path
//! where a generator splices it.

use vstd::prelude::*;

verus! {

/// Selects the `key(..)` opening.
pub struct MetaList;

/// Selects the `key = value` opening.
pub struct NamedValue;

/// Selects the bare `key` opening.
pub struct Path;

} // verus!
