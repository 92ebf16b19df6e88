//! A reference to the state that plugins share, filled in once. It does not
//! keep that state alive.

use vstd::prelude::*;
use std::rc::Rc;
use super::weak::{WeakRef, downgrade, strong_count, upgrade};

verus! {

/// A reference to the state that the plugins of an interface share. It is
/// empty until a plugin is first built and keeps what it was first given, for
/// as long as someone else keeps that alive.
#[verifier::reject_recursive_types(T)]
pub struct DynamicUiRef<T> {
    dynamic_ui: Option<WeakRef<T>>,
}

impl<T> DynamicUiRef<T> {
    /// What the reference was set to, if it was set.
    pub closed spec fn target(&self) -> Option<Rc<T>> {
        match self.dynamic_ui {
            Some(weak) => Some(weak.target()),
            None => None,
        }
    }

    /// A reference that points to nothing yet.
    pub fn new() -> (r: Self)
        ensures
            r.target().is_none(),
    {
        DynamicUiRef { dynamic_ui: None }
    }

    /// Makes the reference point to `dynamic_ui`, unless it was set before.
    pub fn set(&mut self, dynamic_ui: &Rc<T>)
        ensures
            final(self).target() == match old(self).target() {
                Some(first) => Some(first),
                None => Some(*dynamic_ui),
            },
    {
        if self.dynamic_ui.is_none() {
            self.dynamic_ui = Some(downgrade(dynamic_ui));
        }
    }

    /// Whether the reference was set and what it was set to is still alive.
    /// A reference that was never set says no.
    pub fn is_set(&self) -> (r: bool)
        ensures
            r ==> self.target().is_some(),
    {
        match &self.dynamic_ui {
            Some(weak) => strong_count(weak) > 0,
            None => false,
        }
    }

    /// What the reference was set to, if that is still alive. A reference
    /// that was never set gives nothing.
    pub fn get(&self) -> (r: Option<Rc<T>>)
        ensures
            r matches Some(rc) ==> Some(rc) == self.target(),
    {
        match &self.dynamic_ui {
            Some(weak) => upgrade(weak),
            None => None,
        }
    }
}

} // verus!
