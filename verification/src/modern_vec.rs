//! A growable vector whose maximum length is fixed exactly once.
//!
//! A `ModernVec` starts unlocked: nothing may be appended until `lock`
//! fixes the capacity. Afterwards `safe_push` appends up to that capacity
//! and refuses anything more, and `replace` swaps elements in place. The
//! capacity, once set, never changes.

use vstd::prelude::*;
use vstd::pervasive::VecAdditionalExecFns;
use crate::Error;
use crate::traits::{Lockable, ReplacebleIndex};

verus! {

/// A capacity-locked buffer over any element type.
pub struct ModernVec<T> {
    lock: Option<usize>,
    vec: Vec<T>,
}

impl<T> ModernVec<T> {
    /// Returns an empty, unlocked buffer.
    pub fn new() -> (r: ModernVec<T>)
        ensures
            r.elems() == Seq::<T>::empty(),
            r.lock_spec() is None,
    {
        ModernVec { vec: Vec::new(), lock: None }
    }

    /// Appends `src`. Fails before `lock`, and fails once the length has
    /// reached the locked capacity.
    pub fn safe_push(&mut self, src: T) -> (r: Result<(), Error>)
        ensures
            match old(self).lock_spec() {
                None => {
                    &&& r == Err::<(), Error>(Error::NotLocked)
                    &&& *final(self) == *old(self)
                },
                Some(cap) => {
                    if old(self).elems().len() < cap {
                        &&& r is Ok
                        &&& final(self).elems() == old(self).elems().push(src)
                        &&& final(self).lock_spec() == old(self).lock_spec()
                    } else {
                        &&& r == Err::<(), Error>(Error::CapacityExceeded)
                        &&& *final(self) == *old(self)
                    }
                },
            },
    {
        match self.lock {
            Some(val) => {
                if self.vec.len() < val {
                    self.vec.push(src);
                    Ok(())
                } else {
                    Err(Error::CapacityExceeded)
                }
            },
            None => Err(Error::NotLocked),
        }
    }

    /// Reads the value at `index` without mutating anything. Fails if
    /// `index` is past the current length.
    pub fn get(&self, index: usize) -> (r: Result<&T, Error>)
        ensures
            index < self.elems().len() ==> (r matches Ok(v) && *v == self.elems()[index as int]),
            index >= self.elems().len() ==> r == Err::<&T, Error>(Error::IndexOutOfBounds),
    {
        if index < self.vec.len() {
            Ok(&self.vec[index])
        } else {
            Err(Error::IndexOutOfBounds)
        }
    }
}

impl<T> Lockable<T> for ModernVec<T> {
    closed spec fn elems(&self) -> Seq<T> {
        self.vec@
    }

    closed spec fn lock_spec(&self) -> Option<usize> {
        self.lock
    }

    fn lock(&mut self, len: usize) -> (r: Result<(), Error>) {
        match self.lock {
            Some(_) => Err(Error::AlreadyLocked),
            None => {
                self.lock = Some(len);
                Ok(())
            },
        }
    }

    fn is_locked(&self) -> (r: bool) {
        match self.lock {
            Some(_) => true,
            None => false,
        }
    }

    fn get_lock_len(&self) -> (r: Result<usize, Error>) {
        match self.lock {
            Some(n) => Ok(n),
            None => Err(Error::NotLocked),
        }
    }
}

impl<T> ReplacebleIndex<T> for ModernVec<T> {
    fn replace(&mut self, index: usize, src: T) -> (r: Result<T, Error>) {
        if index < self.vec.len() {
            let mut prev = src;
            self.vec.set_and_swap(index, &mut prev);
            Ok(prev)
        } else {
            Err(Error::IndexOutOfBounds)
        }
    }
}

} // verus!
