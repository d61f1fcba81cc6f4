//! A fixed-width text row over a capacity-locked buffer.
//!
//! An `AsciiVec` of width `w` holds `w` characters; the last cell is the
//! row terminator `'\n'`, written once at construction and protected from
//! every later read and write. The visible cells are indices `0 ..= w - 2`.

use vstd::prelude::*;
use crate::Error;
use crate::modern_vec::ModernVec;
use crate::text::row_filled;
use crate::traits::{Lockable, ReplacebleIndex};

verus! {

/// One row of the grid: visible cells plus a reserved trailing terminator.
pub struct AsciiVec {
    vec: ModernVec<char>,
}

impl View for AsciiVec {
    type V = Seq<char>;

    closed spec fn view(&self) -> Seq<char> {
        self.vec.elems()
    }
}

/// Appends one character to a string.
///
/// Relies on `String::push`: the string grows by exactly the pushed
/// character, at the end.
#[verifier::external_body]
fn push_char(s: &mut String, c: char)
    ensures
        final(s)@ == old(s)@.push(c),
{
    s.push(c);
}

impl AsciiVec {
    /// The fixed width of the row, terminator included.
    pub open spec fn width(&self) -> nat {
        self@.len()
    }

    /// The row invariant: the buffer is locked at its own length, at
    /// least one cell long, and ends in the terminator.
    pub closed spec fn wf(&self) -> bool {
        &&& (self.vec.lock_spec() matches Some(n) && n == self.vec.elems().len())
        &&& self.vec.elems().len() >= 1
        &&& self.vec.elems().last() == '\n'
    }

    /// What the row invariant guarantees about the visible view.
    pub proof fn lemma_wf_view(&self)
        requires
            self.wf(),
        ensures
            self@.len() >= 1,
            self@[self@.len() - 1] == '\n',
    {
    }

    /// Builds a row of `width` cells: spaces, then the terminator.
    /// A zero width is rejected.
    pub fn new(width: usize) -> (r: Result<AsciiVec, Error>)
        ensures
            width == 0 ==> r == Err::<AsciiVec, Error>(Error::InvalidDimensions),
            width >= 1 ==> (r matches Ok(av) && av.wf() && av@ == row_filled(width as nat, ' ')),
    {
        if width == 0 {
            return Err(Error::InvalidDimensions);
        }
        let mut vec: ModernVec<char> = ModernVec::new();
        let _ = vec.lock(width);
        let mut i: usize = 0;
        while i < width - 1
            invariant
                1 <= width,
                i <= width - 1,
                vec.lock_spec() == Some(width),
                vec.elems().len() == i,
                forall|j: int| 0 <= j < i ==> vec.elems()[j] == ' ',
            decreases width - 1 - i,
        {
            let _ = vec.safe_push(' ');
            i = i + 1;
        }
        let _ = vec.safe_push('\n');
        let av = AsciiVec { vec };
        proof {
            assert(av@ =~= row_filled(width as nat, ' '));
        }
        Ok(av)
    }

    /// Overwrites every visible cell with `ch`; the terminator stays.
    pub fn fill(&mut self, ch: char)
        requires
            old(self).wf(),
        ensures
            final(self).wf(),
            final(self)@ == row_filled(old(self).width(), ch),
    {
        let n: usize = match self.vec.get_lock_len() {
            Ok(v) => v,
            Err(_) => 0,
        };
        let mut i: usize = 0;
        while i < n - 1
            invariant
                1 <= n,
                i <= n - 1,
                self.vec.lock_spec() == Some(n),
                self.vec.elems().len() == n,
                self.vec.elems().last() == '\n',
                forall|j: int| 0 <= j < i ==> self.vec.elems()[j] == ch,
                forall|j: int| i <= j < n ==> self.vec.elems()[j] == old(self).vec.elems()[j],
            decreases n - 1 - i,
        {
            let _ = self.vec.replace(i, ch);
            i = i + 1;
        }
        proof {
            assert(self@ =~= row_filled(old(self).width(), ch));
        }
    }

    /// Reads the visible cell at `ind`. The terminator cell cannot be
    /// read this way, and an index past the row fails.
    pub fn get(&self, ind: usize) -> (r: Result<char, Error>)
        requires
            self.wf(),
        ensures
            ind < self@.len() - 1 ==> r == Ok::<char, Error>(self@[ind as int]),
            ind == self@.len() - 1 ==> r == Err::<char, Error>(Error::TerminatorProtected),
            ind >= self@.len() ==> r == Err::<char, Error>(Error::IndexOutOfBounds),
    {
        let n: usize = match self.vec.get_lock_len() {
            Ok(v) => v,
            Err(_) => 0,
        };
        if ind >= n {
            Err(Error::IndexOutOfBounds)
        } else if ind == n - 1 {
            Err(Error::TerminatorProtected)
        } else {
            match self.vec.get(ind) {
                Ok(c) => Ok(*c),
                Err(e) => Err(e),
            }
        }
    }

    /// Swaps the visible cell at `index` for `src` and hands back the old
    /// character. The same checks as `get` apply.
    pub fn replace(&mut self, index: usize, src: char) -> (r: Result<char, Error>)
        requires
            old(self).wf(),
        ensures
            final(self).wf(),
            final(self).width() == old(self).width(),
            index < old(self)@.len() - 1 ==> {
                &&& r == Ok::<char, Error>(old(self)@[index as int])
                &&& final(self)@ == old(self)@.update(index as int, src)
            },
            index == old(self)@.len() - 1 ==> {
                &&& r == Err::<char, Error>(Error::TerminatorProtected)
                &&& *final(self) == *old(self)
            },
            index >= old(self)@.len() ==> {
                &&& r == Err::<char, Error>(Error::IndexOutOfBounds)
                &&& *final(self) == *old(self)
            },
    {
        let n: usize = match self.vec.get_lock_len() {
            Ok(v) => v,
            Err(_) => 0,
        };
        if index >= n {
            Err(Error::IndexOutOfBounds)
        } else if index == n - 1 {
            Err(Error::TerminatorProtected)
        } else {
            self.vec.replace(index, src)
        }
    }

    /// The row's full on-wire text: every cell in order, terminator last.
    pub fn get_str(&self) -> (r: String)
        requires
            self.wf(),
        ensures
            r@ == self@,
    {
        let n: usize = match self.vec.get_lock_len() {
            Ok(v) => v,
            Err(_) => 0,
        };
        let mut s = String::new();
        let mut i: usize = 0;
        while i < n
            invariant
                i <= n,
                self.wf(),
                self.vec.elems().len() == n,
                s@ == self@.take(i as int),
            decreases n - i,
        {
            let c = match self.vec.get(i) {
                Ok(c) => *c,
                Err(_) => ' ',
            };
            push_char(&mut s, c);
            proof {
                assert(self@.take(i + 1) =~= self@.take(i as int).push(self@[i as int]));
            }
            i = i + 1;
        }
        proof {
            assert(self@.take(n as int) =~= self@);
        }
        s
    }
}

} // verus!
