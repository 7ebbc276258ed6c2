//! A string with a maximum byte length, fixed at the type level.

use vstd::prelude::*;

use vstd::string::StringSliceAdditionalSpecFns;
use vstd::utf8::encode_utf8;

use crate::bounded::CONTENTS_FULL;
use crate::max_serialized_len::MaxSerializedLen;

verus! {

/// A string whose UTF-8 encoding holds at most `N` bytes.
#[derive(Debug, Clone)]
pub struct MaxLenString<const N: usize> {
    contents: String,
}

impl<const N: usize> View for MaxLenString<N> {
    type V = Seq<char>;

    closed spec fn view(&self) -> Seq<char> {
        self.contents@
    }
}

impl<const N: usize> MaxLenString<N> {
    /// The UTF-8 encoding of the contents never exceeds the maximum byte
    /// length.
    pub open spec fn inv(&self) -> bool {
        encode_utf8(self@).len() <= N
    }

    /// Wraps a string, unless its UTF-8 encoding holds more than `N` bytes.
    pub fn try_from(string: String) -> (r: Result<MaxLenString<N>, &'static str>)
        ensures
            if encode_utf8(string@).len() > N {
                r matches Err(m) && m@ == CONTENTS_FULL@
            } else {
                r matches Ok(s) && s@ == string@ && s.inv()
            },
    {
        let bytes = string.as_str().as_bytes();
        proof {
            assert(bytes@ == encode_utf8(string@));
        }
        if bytes.len() > N {
            Err(CONTENTS_FULL)
        } else {
            Ok(MaxLenString { contents: string })
        }
    }

    /// Wraps a string slice, unless its UTF-8 encoding holds more than `N`
    /// bytes.
    pub fn try_from_str(string_slice: &str) -> (r: Result<MaxLenString<N>, &'static str>)
        ensures
            if encode_utf8(string_slice@).len() > N {
                r matches Err(m) && m@ == CONTENTS_FULL@
            } else {
                r matches Ok(s) && s@ == string_slice@ && s.inv()
            },
    {
        Self::try_from(string_slice.to_owned())
    }

    /// The wrapped string.
    pub fn contents(&self) -> (r: &String)
        ensures
            r@ == self@,
    {
        &self.contents
    }
}

/// Four bytes of byte count, then at most `N` bytes of text.
impl<const N: usize> MaxSerializedLen for MaxLenString<N> {
    open spec fn spec_max_serialized_len() -> nat {
        (4 + N) as nat
    }

    fn max_serialized_len() -> (r: usize) {
        4 + N
    }
}

} // verus!
