//! A shared, interior-mutable holder of one value.
use std::cell::RefCell;
use std::fmt::Debug;
use std::hash::Hash;
use std::ops::Deref;
use std::rc::Rc;

use vstd::prelude::*;

verus! {

/// The standard library's interior-mutable cell, carried through opaquely.
#[verifier::external_type_specification]
#[verifier::external_body]
#[verifier::reject_recursive_types(T)]
pub struct ExRefCell<T: ?Sized>(RefCell<T>);

/// Calls `RefCell::new`, which moves `value` into a fresh cell. Nothing is
/// stated of the result: the cell's contents can change through any shared
/// reference to it, so they are not a function of the cell value that Verus sees.
#[verifier::external_body]
fn refcell_new<T>(value: T) -> RefCell<T> {
    RefCell::new(value)
}

/// A value behind a shared, reference-counted, interior-mutable cell.
#[derive(Clone, Debug, PartialEq, PartialOrd, Eq, Ord)]
#[verifier::reject_recursive_types(T)]
pub struct RRWrapper<T: Hash + PartialEq + Eq + Ord + Clone + Debug>(Rc<RefCell<T>>);

impl<T: Hash + PartialEq + Eq + Ord + Clone + Debug> RRWrapper<T> {
    /// The shared cell this wrapper refers to.
    pub closed spec fn cell(&self) -> Rc<RefCell<T>> {
        self.0
    }

    /// Puts `inner` into a fresh shared cell.
    pub fn new(inner: T) -> (r: Self) {
        RRWrapper(Rc::new(refcell_new(inner)))
    }
}

impl<T: Hash + PartialEq + Eq + Ord + Clone + Debug> Deref for RRWrapper<T> {
    type Target = Rc<RefCell<T>>;

    fn deref(&self) -> (r: &Rc<RefCell<T>>)
        ensures
            *r == self.cell(),
    {
        &self.0
    }
}

} // verus!
