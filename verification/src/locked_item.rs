//! An item locked until an expiry timestamp. Locked items compare by their
//! expiry time alone.

use vstd::prelude::*;

use core::cmp::Ordering;

use crate::max_serialized_len::MaxSerializedLen;

verus! {

/// A value that stays locked until `expires`, a Unix timestamp in seconds.
#[derive(Debug, Clone)]
pub struct LockedItem<T: MaxSerializedLen> {
    pub item: T,
    pub expires: i64,
}

impl<T: MaxSerializedLen> LockedItem<T> {
    /// Whether the lock has expired at `current_time`.
    pub fn expired(&self, current_time: i64) -> (r: bool)
        ensures
            r == (self.expires < current_time),
    {
        self.expires < current_time
    }
}

impl<T: MaxSerializedLen> PartialEq for LockedItem<T> {
    /// Locked items are equal when they expire at the same time.
    fn eq(&self, other: &Self) -> (r: bool) {
        self.expires == other.expires
    }
}

impl<T: MaxSerializedLen> vstd::std_specs::cmp::PartialEqSpecImpl for LockedItem<T> {
    open spec fn obeys_eq_spec() -> bool {
        true
    }

    open spec fn eq_spec(&self, other: &Self) -> bool {
        self.expires == other.expires
    }
}

impl<T: MaxSerializedLen> PartialOrd for LockedItem<T> {
    /// Locked items order by their expiry time.
    fn partial_cmp(&self, other: &Self) -> (r: Option<Ordering>) {
        if self.expires < other.expires {
            Some(Ordering::Less)
        } else if self.expires == other.expires {
            Some(Ordering::Equal)
        } else {
            Some(Ordering::Greater)
        }
    }
}

impl<T: MaxSerializedLen> vstd::std_specs::cmp::PartialOrdSpecImpl for LockedItem<T> {
    open spec fn obeys_partial_cmp_spec() -> bool {
        true
    }

    open spec fn partial_cmp_spec(&self, other: &Self) -> Option<Ordering> {
        if self.expires < other.expires {
            Some(Ordering::Less)
        } else if self.expires == other.expires {
            Some(Ordering::Equal)
        } else {
            Some(Ordering::Greater)
        }
    }
}

/// The item's own maximum length, then eight bytes of timestamp.
impl<T: MaxSerializedLen> MaxSerializedLen for LockedItem<T> {
    open spec fn spec_max_serialized_len() -> nat {
        T::spec_max_serialized_len() + 8
    }

    fn max_serialized_len() -> (r: usize) {
        T::max_serialized_len() + 8
    }
}

} // verus!
