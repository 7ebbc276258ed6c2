//! The maximum length of the serialized byte stream of a borsh-serializable
//! value, known from the type alone.
//!
//! Useful when allocating space for an account up front: a type whose maximum
//! serialized length is known can be given a statically sized buffer.

use vstd::prelude::*;

verus! {

/// Types with a statically known maximum borsh-serialized length.
///
/// The length is a property of the type: `spec_max_serialized_len` gives it
/// as a mathematical number, and `max_serialized_len` computes it, defined
/// whenever it fits the machine's word size.
pub trait MaxSerializedLen {
    /// The maximum serialized length, as a mathematical number.
    spec fn spec_max_serialized_len() -> nat;

    /// The maximum serialized length.
    fn max_serialized_len() -> (r: usize)
        requires
            Self::spec_max_serialized_len() <= usize::MAX,
        ensures
            r == Self::spec_max_serialized_len(),
    ;
}

impl MaxSerializedLen for bool {
    open spec fn spec_max_serialized_len() -> nat {
        1
    }

    fn max_serialized_len() -> usize {
        1
    }
}

impl MaxSerializedLen for u8 {
    open spec fn spec_max_serialized_len() -> nat {
        1
    }

    fn max_serialized_len() -> usize {
        1
    }
}

impl MaxSerializedLen for u16 {
    open spec fn spec_max_serialized_len() -> nat {
        2
    }

    fn max_serialized_len() -> usize {
        2
    }
}

impl MaxSerializedLen for u32 {
    open spec fn spec_max_serialized_len() -> nat {
        4
    }

    fn max_serialized_len() -> usize {
        4
    }
}

impl MaxSerializedLen for u64 {
    open spec fn spec_max_serialized_len() -> nat {
        8
    }

    fn max_serialized_len() -> usize {
        8
    }
}

impl MaxSerializedLen for u128 {
    open spec fn spec_max_serialized_len() -> nat {
        16
    }

    fn max_serialized_len() -> usize {
        16
    }
}

impl MaxSerializedLen for i8 {
    open spec fn spec_max_serialized_len() -> nat {
        1
    }

    fn max_serialized_len() -> usize {
        1
    }
}

impl MaxSerializedLen for i16 {
    open spec fn spec_max_serialized_len() -> nat {
        2
    }

    fn max_serialized_len() -> usize {
        2
    }
}

impl MaxSerializedLen for i32 {
    open spec fn spec_max_serialized_len() -> nat {
        4
    }

    fn max_serialized_len() -> usize {
        4
    }
}

impl MaxSerializedLen for i64 {
    open spec fn spec_max_serialized_len() -> nat {
        8
    }

    fn max_serialized_len() -> usize {
        8
    }
}

impl MaxSerializedLen for i128 {
    open spec fn spec_max_serialized_len() -> nat {
        16
    }

    fn max_serialized_len() -> usize {
        16
    }
}

/// A 32-byte array: the shape of a public key on the wire.
impl MaxSerializedLen for [u8; 32] {
    open spec fn spec_max_serialized_len() -> nat {
        32
    }

    fn max_serialized_len() -> usize {
        32
    }
}

/// An option adds a one-byte tag in front of its payload.
impl<T: MaxSerializedLen> MaxSerializedLen for Option<T> {
    open spec fn spec_max_serialized_len() -> nat {
        1 + T::spec_max_serialized_len()
    }

    fn max_serialized_len() -> usize {
        1 + T::max_serialized_len()
    }
}

/// A phantom field serializes to nothing.
impl<T> MaxSerializedLen for core::marker::PhantomData<T> {
    open spec fn spec_max_serialized_len() -> nat {
        0
    }

    fn max_serialized_len() -> usize {
        0
    }
}

} // verus!
