//! Free-form manifest values, carried as the `toml` crate holds them.

use vstd::prelude::*;

verus! {

/// `toml::Value`: a value of any shape that a manifest may hold. It is carried through
/// as it is; nothing is known here of what it holds.
#[verifier::external_type_specification]
#[verifier::external_body]
pub struct ExValue(toml::Value);

} // verus!
