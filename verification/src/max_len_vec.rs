//! A vector with a maximum number of elements, fixed at the type level.
//!
//! The bound makes the maximum serialized length of the contents statically
//! known, which is what lets a data structure holding one be given a
//! statically sized account buffer.

use vstd::prelude::*;

use crate::bounded::{MaxLenResult, CONTENTS_FULL};
use crate::max_serialized_len::MaxSerializedLen;

verus! {

/// A vector holding at most `N` elements.
#[derive(Debug)]
pub struct MaxLenVec<T, const N: usize> {
    contents: Vec<T>,
}

impl<T, const N: usize> View for MaxLenVec<T, N> {
    type V = Seq<T>;

    closed spec fn view(&self) -> Seq<T> {
        self.contents@
    }
}

impl<T, const N: usize> MaxLenVec<T, N> {
    /// The contents never exceed the maximum length.
    pub closed spec fn inv(&self) -> bool {
        self.contents@.len() <= N
    }

    /// Creates an empty bounded vector.
    pub fn new() -> (r: MaxLenVec<T, N>)
        ensures
            r@ == Seq::<T>::empty(),
            r.inv(),
    {
        MaxLenVec { contents: Vec::with_capacity(N) }
    }

    /// Whether the vector holds its maximum number of elements.
    pub fn is_full(&self) -> (r: bool)
        ensures
            r == (self@.len() == N),
    {
        self.contents.len() == N
    }

    /// Whether the vector holds no elements.
    pub fn is_empty(&self) -> (r: bool)
        ensures
            r == (self@.len() == 0),
    {
        self.contents.is_empty()
    }

    /// The number of elements held.
    pub fn len(&self) -> (r: usize)
        ensures
            r == self@.len(),
    {
        self.contents.len()
    }

    /// The elements, as a shared slice.
    pub fn contents(&self) -> (r: &[T])
        ensures
            r@ == self@,
    {
        self.contents.as_slice()
    }

    /// The elements, as a mutable slice. Writing through the slice updates the
    /// vector in place; the slice cannot change the number of elements.
    pub fn contents_mut(&mut self) -> (r: &mut [T])
        ensures
            r@ == old(self)@,
            final(self)@ == final(r)@,
    {
        self.contents.as_mut_slice()
    }

    /// Appends one element, unless the vector is already full.
    pub fn push(&mut self, elem: T) -> (r: MaxLenResult)
        requires
            old(self).inv(),
        ensures
            final(self).inv(),
            if old(self)@.len() == N {
                r matches Err(m) && m@ == CONTENTS_FULL@ && final(self)@ == old(self)@
            } else {
                r is Ok && final(self)@ == old(self)@.push(elem)
            },
    {
        if self.is_full() {
            Err(CONTENTS_FULL)
        } else {
            self.contents.push(elem);
            Ok(())
        }
    }

    /// Removes and returns the last element, if any.
    pub fn pop(&mut self) -> (r: Option<T>)
        requires
            old(self).inv(),
        ensures
            final(self).inv(),
            if old(self)@.len() == 0 {
                r is None && final(self)@ == old(self)@
            } else {
                r == Some(old(self)@.last()) && final(self)@ == old(self)@.drop_last()
            },
    {
        self.contents.pop()
    }

    /// Appends one element, evicting the oldest element first when the vector
    /// is full.
    pub fn cyclic_push(&mut self, elem: T)
        requires
            old(self).inv(),
            N >= 1,
        ensures
            final(self).inv(),
            if old(self)@.len() == N {
                final(self)@ == old(self)@.skip(1).push(elem)
            } else {
                final(self)@ == old(self)@.push(elem)
            },
    {
        if self.is_full() {
            self.contents.remove(0);
            proof {
                assert(self.contents@ =~= old(self)@.skip(1));
            }
        }
        self.contents.push(elem);
    }

    /// Inserts one element at `index`, shifting what follows, unless the
    /// vector is already full.
    pub fn insert(&mut self, index: usize, value: T) -> (r: MaxLenResult)
        requires
            old(self).inv(),
            old(self)@.len() == N || index <= old(self)@.len(),
        ensures
            final(self).inv(),
            if old(self)@.len() == N {
                r matches Err(m) && m@ == CONTENTS_FULL@ && final(self)@ == old(self)@
            } else {
                r is Ok && final(self)@ == old(self)@.insert(index as int, value)
            },
    {
        if self.is_full() {
            Err(CONTENTS_FULL)
        } else {
            self.contents.insert(index, value);
            Ok(())
        }
    }

    /// Removes the element at `index`, shifting what follows.
    pub fn remove(&mut self, index: usize)
        requires
            old(self).inv(),
            index < old(self)@.len(),
        ensures
            final(self).inv(),
            final(self)@ == old(self)@.remove(index as int),
    {
        self.contents.remove(index);
    }

    /// The last element, if any.
    pub fn get_last_element(&self) -> (r: Option<&T>)
        ensures
            match r {
                Some(t) => self@.len() > 0 && *t == self@.last(),
                None => self@.len() == 0,
            },
    {
        if self.is_empty() {
            None
        } else {
            Some(&self.contents[self.contents.len() - 1])
        }
    }

    /// Wraps a plain vector, unless it holds more than `N` elements.
    pub fn try_from(vec: Vec<T>) -> (r: Result<MaxLenVec<T, N>, &'static str>)
        ensures
            if vec@.len() > N {
                r matches Err(m) && m@ == CONTENTS_FULL@
            } else {
                r matches Ok(v) && v@ == vec@ && v.inv()
            },
    {
        if vec.len() > N {
            Err(CONTENTS_FULL)
        } else {
            Ok(MaxLenVec { contents: vec })
        }
    }
}

/// Four bytes of element count, then at most `N` serialized elements.
impl<T: MaxSerializedLen, const N: usize> MaxSerializedLen for MaxLenVec<T, N> {
    open spec fn spec_max_serialized_len() -> nat {
        (4 + N * T::spec_max_serialized_len()) as nat
    }

    fn max_serialized_len() -> (r: usize) {
        if N == 0 {
            4
        } else {
            proof {
                assert(T::spec_max_serialized_len() <= N * T::spec_max_serialized_len())
                    by (nonlinear_arith)
                    requires
                        N >= 1,
                {
                }
            }
            let t = T::max_serialized_len();
            proof {
                assert(N * t == N * T::spec_max_serialized_len());
            }
            4 + N * t
        }
    }
}

impl<T, const N: usize> Default for MaxLenVec<T, N> {
    /// An empty bounded vector.
    fn default() -> (r: Self)
        ensures
            r@ == Seq::<T>::empty(),
            r.inv(),
    {
        Self::new()
    }
}

} // verus!
