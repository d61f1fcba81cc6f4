//! Behavioural traits of the capacity-locked buffer.
//!
//! `Lockable` captures the one-time capacity lock, `ReplacebleIndex` the
//! in-place swap of an element. Both speak about the implementor through
//! two spec views: the element sequence and the lock state.

use vstd::prelude::*;
use crate::Error;

verus! {

/// A container whose maximum length can be fixed exactly once.
pub trait Lockable<T>: Sized {
    /// The elements currently held, in order.
    spec fn elems(&self) -> Seq<T>;

    /// `Some(n)` once the capacity has been locked at `n`, `None` before.
    spec fn lock_spec(&self) -> Option<usize>;

    /// Fixes the capacity at `len`. Fails if a capacity is already set.
    fn lock(&mut self, len: usize) -> (r: Result<(), Error>)
        ensures
            old(self).lock_spec() is None ==> {
                &&& r is Ok
                &&& final(self).lock_spec() == Some(len)
                &&& final(self).elems() == old(self).elems()
            },
            old(self).lock_spec() is Some ==> {
                &&& r == Err::<(), Error>(Error::AlreadyLocked)
                &&& *final(self) == *old(self)
            },
    ;

    /// Whether the capacity has been fixed.
    fn is_locked(&self) -> (r: bool)
        ensures
            r == (self.lock_spec() is Some),
    ;

    /// The locked capacity. Fails before `lock`.
    fn get_lock_len(&self) -> (r: Result<usize, Error>)
        ensures
            match self.lock_spec() {
                Some(n) => r == Ok::<usize, Error>(n),
                None => r == Err::<usize, Error>(Error::NotLocked),
            },
    ;
}

/// A container whose elements can be swapped out one index at a time.
///
/// The supertrait bound lets `replace` promise that the capacity lock
/// survives the swap.
pub trait ReplacebleIndex<T>: Lockable<T> {
    /// Swaps the value at `index` for `src` and hands back the old value.
    /// Fails without touching anything if `index` is past the length.
    fn replace(&mut self, index: usize, src: T) -> (r: Result<T, Error>)
        ensures
            index < old(self).elems().len() ==> {
                &&& final(self).elems() == old(self).elems().update(index as int, src)
                &&& final(self).lock_spec() == old(self).lock_spec()
                &&& r == Ok::<T, Error>(old(self).elems()[index as int])
            },
            index >= old(self).elems().len() ==> {
                &&& *final(self) == *old(self)
                &&& r == Err::<T, Error>(Error::IndexOutOfBounds)
            },
    ;
}

} // verus!
