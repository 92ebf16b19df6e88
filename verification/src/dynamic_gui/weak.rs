//! The weak pointer of the standard library, as far as the library needs it.
//!
//! Everything here is trusted: the three functions are the only way to make
//! a weak pointer and to ask one, and what they state belongs together.

use vstd::prelude::*;
use std::rc::{Rc, Weak};

verus! {

/// A pointer that does not keep what it points to alive.
///
/// Trusted: the field is a `Weak` of the standard library, which Verus does
/// not look into.
#[verifier::external_body]
#[verifier::reject_recursive_types(T)]
struct WeakPointer<T> {
    weak: Weak<T>,
}

/// A weak pointer together with the value that it was made from. Only
/// [`downgrade`] makes one.
#[verifier::reject_recursive_types(T)]
pub struct WeakRef<T> {
    pointer: WeakPointer<T>,
    made_from: Ghost<Rc<T>>,
}

impl<T> WeakRef<T> {
    /// What the pointer was made from.
    pub closed spec fn target(&self) -> Rc<T> {
        self.made_from@
    }
}

/// A weak pointer to what `rc` points to.
///
/// Trusted: this is `Rc::downgrade` of the standard library. The result is
/// on record as made from `rc`.
#[verifier::external_body]
pub(crate) fn downgrade<T>(rc: &Rc<T>) -> (r: WeakRef<T>)
    ensures
        r.target() == *rc,
{
    WeakRef { pointer: WeakPointer { weak: Rc::downgrade(rc) }, made_from: Ghost(*rc) }
}

/// A strong pointer to what `weak` points to, if that is still alive.
///
/// Trusted: this is `Weak::upgrade` of the standard library. It gives either
/// nothing or a pointer to the value that the weak pointer was made from;
/// when it gives which is not said.
#[verifier::external_body]
pub(crate) fn upgrade<T>(weak: &WeakRef<T>) -> (r: Option<Rc<T>>)
    ensures
        r matches Some(rc) ==> rc == weak.target(),
{
    weak.pointer.weak.upgrade()
}

/// The number of strong pointers to what `weak` points to.
///
/// Trusted: this is `Weak::strong_count` of the standard library. Nothing is
/// claimed of the result.
#[verifier::external_body]
pub(crate) fn strong_count<T>(weak: &WeakRef<T>) -> (r: usize) {
    weak.pointer.weak.strong_count()
}

} // verus!
