//! The family of a Bluefile and the exact code that the header gave.

use vstd::prelude::*;
use crate::endian::Endianness;
use crate::error::Error;
use crate::util::{bytes_to_i32, spec_bytes_to_i32};

verus! {

/// The family of a file, each with the code as the header spells it: family
/// `n` holds the codes from `n` thousand up to the next thousand.
#[derive(Clone, Copy, Debug, PartialEq, Eq, Structural)]
pub enum TypeCode {
    Type1000(i32),
    Type2000(i32),
    Type3000(i32),
    Type4000(i32),
    Type5000(i32),
    Type6000(i32),
}

impl TypeCode {
    /// The code as the header spelled it.
    pub open spec fn spec_code(&self) -> i32 {
        match self {
            TypeCode::Type1000(t) => *t,
            TypeCode::Type2000(t) => *t,
            TypeCode::Type3000(t) => *t,
            TypeCode::Type4000(t) => *t,
            TypeCode::Type5000(t) => *t,
            TypeCode::Type6000(t) => *t,
        }
    }

    /// The family's number, 1 to 6.
    pub open spec fn spec_family(&self) -> int {
        match self {
            TypeCode::Type1000(_) => 1,
            TypeCode::Type2000(_) => 2,
            TypeCode::Type3000(_) => 3,
            TypeCode::Type4000(_) => 4,
            TypeCode::Type5000(_) => 5,
            TypeCode::Type6000(_) => 6,
        }
    }

    /// The code as the header spelled it.
    pub fn code(&self) -> (t: i32)
        ensures
            t == self.spec_code(),
    {
        match self {
            TypeCode::Type1000(t) => *t,
            TypeCode::Type2000(t) => *t,
            TypeCode::Type3000(t) => *t,
            TypeCode::Type4000(t) => *t,
            TypeCode::Type5000(t) => *t,
            TypeCode::Type6000(t) => *t,
        }
    }
}

/// The type code that a number stands for: its thousands choose the family,
/// and only the families 1 to 6 exist.
pub open spec fn spec_type_code(t: i32) -> Result<TypeCode, Error> {
    if 1000 <= t < 2000 {
        Ok(TypeCode::Type1000(t))
    } else if 2000 <= t < 3000 {
        Ok(TypeCode::Type2000(t))
    } else if 3000 <= t < 4000 {
        Ok(TypeCode::Type3000(t))
    } else if 4000 <= t < 5000 {
        Ok(TypeCode::Type4000(t))
    } else if 5000 <= t < 6000 {
        Ok(TypeCode::Type5000(t))
    } else if 6000 <= t < 7000 {
        Ok(TypeCode::Type6000(t))
    } else {
        Err(Error::UnknownFileTypeCode(t))
    }
}

/// What `parse_type_code` returns: the type code of the number that four
/// bytes spell.
pub open spec fn spec_parse_type_code(v: Seq<u8>, endianness: Endianness) -> Result<
    TypeCode,
    Error,
> {
    match spec_bytes_to_i32(v, endianness) {
        Ok(t) => spec_type_code(t),
        Err(e) => Err(e),
    }
}

/// A type code keeps the number it was made from, in the family of that
/// number's thousands.
pub proof fn lemma_type_code_keeps_code(t: i32)
    ensures
        spec_type_code(t) matches Ok(c) ==> c.spec_code() == t && c.spec_family() == t as int
            / 1000,
        spec_type_code(t) is Ok <==> 1000 <= t <= 6999,
{
}

/// Reads the four bytes of a type code in the given byte order.
pub fn parse_type_code(v: &[u8], endianness: Endianness) -> (r: Result<TypeCode, Error>)
    ensures
        r == spec_parse_type_code(v@, endianness),
{
    let t = bytes_to_i32(v, endianness)?;
    if 1000 <= t && t < 2000 {
        Ok(TypeCode::Type1000(t))
    } else if 2000 <= t && t < 3000 {
        Ok(TypeCode::Type2000(t))
    } else if 3000 <= t && t < 4000 {
        Ok(TypeCode::Type3000(t))
    } else if 4000 <= t && t < 5000 {
        Ok(TypeCode::Type4000(t))
    } else if 5000 <= t && t < 6000 {
        Ok(TypeCode::Type5000(t))
    } else if 6000 <= t && t < 7000 {
        Ok(TypeCode::Type6000(t))
    } else {
        Err(Error::UnknownFileTypeCode(t))
    }
}

} // verus!
