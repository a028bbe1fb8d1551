//! Inserting or removing something, as one value.

use core::cmp::Ordering;
use vstd::prelude::*;
use vstd::std_specs::cmp::{PartialEqSpec, PartialOrdSpec};

verus! {

/// Whether to insert a `T` or to remove what is there.
///
/// `Remove` orders before every `Insert`; two `Insert`s order as their values.
#[derive(Debug, Clone, Copy, Hash, Eq, Ord)]
pub enum Modify<T> {
    /// Remove the `T`.
    Remove,
    /// Insert the `T`.
    Insert(T),
}

impl<T> Modify<T> {
    /// Inserts `value` if `cond` holds, and removes otherwise.
    pub fn insert_if(cond: bool, value: T) -> (r: Modify<T>)
        ensures
            r == (if cond {
                Modify::Insert(value)
            } else {
                Modify::Remove
            }),
    {
        if cond {
            Modify::Insert(value)
        } else {
            Modify::Remove
        }
    }

    /// Inserts the value of a `Some`, and removes for `None`.
    pub fn insert_some(option: Option<T>) -> (r: Modify<T>)
        ensures
            r == (match option {
                Some(value) => Modify::Insert(value),
                None => Modify::Remove,
            }),
    {
        match option {
            Some(value) => Modify::Insert(value),
            None => Modify::Remove,
        }
    }

    /// Inserts the value of an `Ok`, and removes for any `Err`.
    pub fn insert_ok<E>(result: Result<T, E>) -> (r: Modify<T>)
        ensures
            r == (match result {
                Ok(value) => Modify::Insert(value),
                Err(_) => Modify::Remove,
            }),
    {
        match result {
            Ok(value) => Modify::Insert(value),
            Err(_) => Modify::Remove,
        }
    }
}

impl<T: PartialEq> PartialEq for Modify<T> {
    fn eq(&self, other: &Modify<T>) -> (r: bool) {
        match (self, other) {
            (Modify::Insert(lhs), Modify::Insert(rhs)) => lhs.eq(rhs),
            (Modify::Remove, Modify::Remove) => true,
            _ => false,
        }
    }
}

impl<T: PartialEq> vstd::std_specs::cmp::PartialEqSpecImpl for Modify<T> {
    open spec fn obeys_eq_spec() -> bool {
        T::obeys_eq_spec()
    }

    open spec fn eq_spec(&self, other: &Modify<T>) -> bool {
        match (self, other) {
            (Modify::Insert(lhs), Modify::Insert(rhs)) => lhs.eq_spec(rhs),
            (Modify::Remove, Modify::Remove) => true,
            _ => false,
        }
    }
}

impl<T: PartialOrd> PartialOrd for Modify<T> {
    fn partial_cmp(&self, other: &Modify<T>) -> (r: Option<Ordering>) {
        match (self, other) {
            (Modify::Insert(lhs), Modify::Insert(rhs)) => lhs.partial_cmp(rhs),
            (Modify::Insert(_), Modify::Remove) => Some(Ordering::Greater),
            (Modify::Remove, Modify::Insert(_)) => Some(Ordering::Less),
            (Modify::Remove, Modify::Remove) => Some(Ordering::Equal),
        }
    }
}

impl<T: PartialOrd> vstd::std_specs::cmp::PartialOrdSpecImpl for Modify<T> {
    open spec fn obeys_partial_cmp_spec() -> bool {
        T::obeys_partial_cmp_spec()
    }

    open spec fn partial_cmp_spec(&self, other: &Modify<T>) -> Option<Ordering> {
        match (self, other) {
            (Modify::Insert(lhs), Modify::Insert(rhs)) => lhs.partial_cmp_spec(rhs),
            (Modify::Insert(_), Modify::Remove) => Some(Ordering::Greater),
            (Modify::Remove, Modify::Insert(_)) => Some(Ordering::Less),
            (Modify::Remove, Modify::Remove) => Some(Ordering::Equal),
        }
    }
}

/// Types that say whether to insert or to remove.
pub trait IntoModify {
    /// What is inserted or removed.
    type Item: Sized;

    /// The decision as a `Modify`.
    fn into_modify(self) -> Modify<Self::Item>;
}

impl<T> IntoModify for Modify<T> {
    type Item = T;

    fn into_modify(self) -> (r: Modify<T>)
        ensures
            r == self,
    {
        self
    }
}

impl<T> IntoModify for (bool, T) {
    type Item = T;

    fn into_modify(self) -> (r: Modify<T>)
        ensures
            r == (if self.0 {
                Modify::Insert(self.1)
            } else {
                Modify::Remove
            }),
    {
        let (cond, value) = self;
        Modify::insert_if(cond, value)
    }
}

impl<T> IntoModify for Option<T> {
    type Item = T;

    fn into_modify(self) -> (r: Modify<T>)
        ensures
            r == (match self {
                Some(value) => Modify::Insert(value),
                None => Modify::Remove,
            }),
    {
        Modify::insert_some(self)
    }
}

impl<T, E> IntoModify for Result<T, E> {
    type Item = T;

    fn into_modify(self) -> (r: Modify<T>)
        ensures
            r == (match self {
                Ok(value) => Modify::Insert(value),
                Err(_) => Modify::Remove,
            }),
    {
        Modify::insert_ok(self)
    }
}

} // verus!
