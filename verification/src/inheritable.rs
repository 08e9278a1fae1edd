//! A manifest value that may have to come from the workspace.

use vstd::prelude::*;
use vstd::std_specs::cmp::{PartialEqSpec, PartialEqSpecImpl};
use vstd::std_specs::convert::FromSpecImpl;
use crate::error::Error;
use crate::strmap::StrMap;

verus! {

/// A value that is either set in the manifest or left to the workspace.
#[derive(Debug, Copy, Clone)]
pub enum Inheritable<T> {
    /// The value.
    Value(T),
    /// Left to the workspace, and not supplied yet.
    Inherited,
}

impl<T: PartialEq> PartialEq for Inheritable<T> {
    /// Two set values are compared; a value left to the workspace equals nothing.
    fn eq(&self, other: &Self) -> (r: bool) {
        match (self, other) {
            (Inheritable::Value(a), Inheritable::Value(b)) => a.eq(b),
            _ => false,
        }
    }
}

impl<T: PartialEq> PartialEqSpecImpl for Inheritable<T> {
    open spec fn obeys_eq_spec() -> bool {
        T::obeys_eq_spec()
    }

    open spec fn eq_spec(&self, other: &Self) -> bool {
        match (self, other) {
            (Inheritable::Value(a), Inheritable::Value(b)) => a.eq_spec(b),
            _ => false,
        }
    }
}

impl<T> Inheritable<T> {
    /// The same, with the value borrowed.
    pub fn as_ref(&self) -> (r: Inheritable<&T>)
        ensures
            r == match self {
                Inheritable::Value(t) => Inheritable::Value(t),
                Inheritable::Inherited => Inheritable::Inherited,
            },
    {
        match self {
            Inheritable::Value(t) => Inheritable::Value(t),
            Inheritable::Inherited => Inheritable::Inherited,
        }
    }

    /// The model of [`Inheritable::is_set`].
    pub open spec fn spec_is_set(&self) -> bool {
        self is Value
    }

    /// Whether the value can be read.
    #[verifier::when_used_as_spec(spec_is_set)]
    pub fn is_set(&self) -> (b: bool)
        ensures
            b == (self is Value),
    {
        matches!(self, Inheritable::Value(_))
    }

    /// The value, or [`Error::InheritedUnknownValue`] where it is left to the workspace.
    pub fn get(&self) -> (r: Result<&T, Error>)
        ensures
            match r {
                Ok(t) => *self == Inheritable::Value(*t),
                Err(e) => *self is Inherited && e is InheritedUnknownValue,
            },
    {
        match self {
            Inheritable::Value(t) => Ok(t),
            Inheritable::Inherited => Err(Error::InheritedUnknownValue),
        }
    }

    /// Sets the value.
    pub fn set(&mut self, val: T)
        ensures
            *final(self) == Inheritable::Value(val),
    {
        *self = Inheritable::Value(val);
    }

    /// The same, with the value borrowed for change.
    pub fn as_mut(&mut self) -> (r: Inheritable<&mut T>)
        ensures
            match r {
                Inheritable::Value(t) => *old(self) == Inheritable::Value(*t) && *final(self)
                    == Inheritable::Value(*final(t)),
                Inheritable::Inherited => *old(self) is Inherited && *final(self) is Inherited,
            },
    {
        match self {
            Inheritable::Value(t) => Inheritable::Value(t),
            Inheritable::Inherited => Inheritable::Inherited,
        }
    }

    /// The value, for change, or [`Error::InheritedUnknownValue`] where it is left to the
    /// workspace.
    pub fn get_mut(&mut self) -> (r: Result<&mut T, Error>)
        ensures
            match r {
                Ok(t) => *old(self) == Inheritable::Value(*t) && *final(self) == Inheritable::Value(
                    *final(t),
                ),
                Err(e) => *old(self) is Inherited && *final(self) is Inherited
                    && e is InheritedUnknownValue,
            },
    {
        match self {
            Inheritable::Value(t) => Ok(t),
            Inheritable::Inherited => Err(Error::InheritedUnknownValue),
        }
    }

    /// The value. It must be set.
    pub fn unwrap(self) -> (t: T)
        requires
            self is Value,
        ensures
            self == Inheritable::Value(t),
    {
        match self {
            Inheritable::Value(t) => t,
            Inheritable::Inherited => vstd::pervasive::unreached(),
        }
    }

    /// Takes a copy of the workspace's value where this one is left to the workspace.
    pub fn inherit(&mut self, other: &T) where T: Clone
        ensures
            *old(self) is Value ==> *final(self) == *old(self),
            *old(self) is Inherited ==> *final(self) is Value && vstd::pervasive::cloned(
                *other,
                (*final(self))->Value_0,
            ),
    {
        if let Inheritable::Inherited = self {
            *self = Inheritable::Value(other.clone());
        }
    }
}

impl<T: Default> Default for Inheritable<T> {
    fn default() -> (r: Self)
        ensures
            r is Value,
            call_ensures(T::default, (), r->Value_0),
    {
        Inheritable::Value(T::default())
    }
}

impl<T> Inheritable<Vec<T>> {
    /// Whether the list is set and holds nothing.
    pub fn is_empty(&self) -> (b: bool)
        ensures
            b == (self matches Inheritable::Value(v) && v@.len() == 0),
    {
        match self {
            Inheritable::Inherited => false,
            Inheritable::Value(v) => v.len() == 0,
        }
    }
}

impl<V> Inheritable<StrMap<V>> {
    /// Whether the map is set and holds nothing.
    pub fn is_empty(&self) -> (b: bool)
        ensures
            b == (self matches Inheritable::Value(v) && v@.dom().len() == 0),
    {
        match self {
            Inheritable::Inherited => false,
            Inheritable::Value(v) => v.is_empty(),
        }
    }
}

impl<T: Default + PartialEq> Inheritable<T> {
    /// Whether the value is set and equals the type's default.
    pub fn is_default(&self) -> (b: bool)
        ensures
            self is Inherited ==> !b,
            (self is Value && T::obeys_eq_spec()) ==> exists|d: T|
                call_ensures(T::default, (), d) && b == d.eq_spec(&self->Value_0),
    {
        match self {
            Inheritable::Inherited => false,
            Inheritable::Value(v) => T::default() == *v,
        }
    }
}

impl<T> From<Option<T>> for Inheritable<T> {
    /// A value that is not there is left to the workspace.
    fn from(val: Option<T>) -> (r: Self) {
        match val {
            Some(val) => Inheritable::Value(val),
            None => Inheritable::Inherited,
        }
    }
}

impl<T> FromSpecImpl<Option<T>> for Inheritable<T> {
    open spec fn obeys_from_spec() -> bool {
        true
    }

    open spec fn from_spec(val: Option<T>) -> Self {
        match val {
            Some(val) => Inheritable::Value(val),
            None => Inheritable::Inherited,
        }
    }
}

impl<T> From<Inheritable<T>> for Option<T> {
    /// A value that is left to the workspace is not there.
    fn from(val: Inheritable<T>) -> (r: Self) {
        match val {
            Inheritable::Inherited => None,
            Inheritable::Value(val) => Some(val),
        }
    }
}

impl<T> FromSpecImpl<Inheritable<T>> for Option<T> {
    open spec fn obeys_from_spec() -> bool {
        true
    }

    open spec fn from_spec(val: Inheritable<T>) -> Self {
        match val {
            Inheritable::Inherited => None,
            Inheritable::Value(val) => Some(val),
        }
    }
}

} // verus!
