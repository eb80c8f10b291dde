//! Byte order, as a Bluefile declares it.

use vstd::prelude::*;
use vstd::std_specs::convert::TryFromSpecImpl;
use crate::ascii::{UPPER_E, UPPER_I};
use crate::error::Error;

verus! {

/// The order of the bytes of a multi-byte number.
#[derive(Clone, Copy, Debug, PartialEq, Eq, Structural)]
pub enum Endianness {
    Big,
    Little,
}

/// The marker of little-endian numbers: `EEEI`.
pub open spec fn is_little_marker(v: Seq<u8>) -> bool {
    v.len() >= 4 && v[0] == UPPER_E && v[1] == UPPER_E && v[2] == UPPER_E && v[3] == UPPER_I
}

/// The marker of big-endian numbers: `IEEE`.
pub open spec fn is_big_marker(v: Seq<u8>) -> bool {
    v.len() >= 4 && v[0] == UPPER_I && v[1] == UPPER_E && v[2] == UPPER_E && v[3] == UPPER_E
}

/// The byte order that a marker stands for. Only the first four bytes count;
/// fewer than four are no marker.
pub open spec fn spec_endianness(v: Seq<u8>) -> Result<Endianness, Error> {
    if is_little_marker(v) {
        Ok(Endianness::Little)
    } else if is_big_marker(v) {
        Ok(Endianness::Big)
    } else {
        Err(Error::InvalidEndianness)
    }
}

impl<'a> TryFrom<&'a [u8]> for Endianness {
    type Error = Error;

    fn try_from(v: &'a [u8]) -> (r: Result<Self, Self::Error>) {
        if v.len() < 4 {
            Err(Error::InvalidEndianness)
        } else if v[0] == UPPER_E && v[1] == UPPER_E && v[2] == UPPER_E && v[3] == UPPER_I {
            Ok(Endianness::Little)
        } else if v[0] == UPPER_I && v[1] == UPPER_E && v[2] == UPPER_E && v[3] == UPPER_E {
            Ok(Endianness::Big)
        } else {
            Err(Error::InvalidEndianness)
        }
    }
}

impl<'a> TryFromSpecImpl<&'a [u8]> for Endianness {
    open spec fn obeys_try_from_spec() -> bool {
        true
    }

    open spec fn try_from_spec(v: &'a [u8]) -> Result<Self, Self::Error> {
        spec_endianness(v@)
    }
}

impl Endianness {
    /// The byte order's name in words.
    pub open spec fn spec_name(&self) -> Seq<char> {
        match self {
            Endianness::Big => "big"@,
            Endianness::Little => "little"@,
        }
    }

    /// The byte order's name in words: `big` or `little`.
    pub fn to_string(&self) -> (s: String)
        ensures
            s@ == self.spec_name(),
    {
        match self {
            Endianness::Big => "big".to_owned(),
            Endianness::Little => "little".to_owned(),
        }
    }
}

} // verus!
