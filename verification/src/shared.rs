//! State that more than one task reaches: it is read and changed only by
//! the task that holds its lock.

use vstd::prelude::*;
use crate::dispatch::Dispatcher;

verus! {

/// A value behind the lock of one of the dispatcher's resources.
pub struct SharedResource<T> {
    resource: usize,
    value: T,
}

impl<T> SharedResource<T> {
    /// The number of the resource whose lock guards the value.
    pub closed spec fn id(&self) -> usize {
        self.resource
    }

    /// The value behind the lock.
    pub closed spec fn value(&self) -> T {
        self.value
    }

    /// Puts `value` behind the lock of `resource`.
    pub fn new(resource: usize, value: T) -> (s: SharedResource<T>)
        ensures
            s.id() == resource,
            s.value() == value,
    {
        SharedResource { resource, value }
    }

    /// The number of the resource whose lock guards the value.
    pub fn resource(&self) -> (r: usize)
        ensures
            r == self.id(),
    {
        self.resource
    }

    /// The value, for the task that holds the lock; `None` for any other.
    pub fn read(&self, d: &Dispatcher) -> (r: Option<&T>)
        ensures
            r.is_some() == d@.holds(self.id()),
            r matches Some(v) ==> *v == self.value(),
    {
        if d.holds(self.resource) {
            Some(&self.value)
        } else {
            None
        }
    }

    /// The value, to be changed by the task that holds the lock.
    pub fn get_mut(&mut self, d: &Dispatcher) -> (r: &mut T)
        requires
            d@.holds(old(self).id()),
        ensures
            *r == old(self).value(),
            final(self).value() == *final(r),
            final(self).id() == old(self).id(),
    {
        &mut self.value
    }

    /// The value, once no task shares it any more.
    pub fn into_inner(self) -> (v: T)
        ensures
            v == self.value(),
    {
        self.value
    }
}

} // verus!
