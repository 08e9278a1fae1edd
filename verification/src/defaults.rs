//! The values that a manifest has where it says nothing, and tests for them.

use vstd::prelude::*;
use vstd::std_specs::cmp::PartialEqSpec;
use crate::inheritable::Inheritable;

verus! {

/// `true`, which many flags are unless a manifest clears them.
pub fn default_true() -> (b: bool)
    ensures
        b,
{
    true
}

/// Whether a value is the one its type has by default.
pub fn is_default<T: Default + Copy + PartialEq>(val: &T) -> (b: bool)
    ensures
        T::obeys_eq_spec() ==> exists|d: T| call_ensures(T::default, (), d) && b == val.eq_spec(&d),
{
    *val == T::default()
}

/// Whether a flag is set.
pub fn is_true(val: &bool) -> (b: bool)
    ensures
        b == *val,
{
    *val
}

/// Whether a flag is clear.
pub fn is_false(val: &bool) -> (b: bool)
    ensures
        b == !*val,
{
    !*val
}

/// The branch that a badge is for where it names none.
pub fn default_master() -> (s: String)
    ensures
        s@ == "master"@,
{
    "master".to_string()
}

/// The version that a package has where it names none.
pub fn default_version() -> (v: Inheritable<String>)
    ensures
        v matches Inheritable::Value(s) && s@ == "0.0.0"@,
{
    Inheritable::Value("0.0.0".to_string())
}

} // verus!
