//! The adjunct header: the 256 bytes after the main header, laid out by the
//! file's family.

use vstd::prelude::*;
use crate::endian::Endianness;
use crate::error::Error;
use crate::float::Float64;
use crate::header::{field_f64, field_i32, Header};
use crate::util::{bytes_to_f64, bytes_to_i32};

verus! {

/// Where the adjunct header starts, in bytes from the start of the file.
pub const ADJUNCT_HEADER_OFFSET: usize = 256;

/// The size of the adjunct header in bytes.
pub const ADJUNCT_HEADER_SIZE: usize = 256;

/// The adjunct header of the family 1000: one axis.
#[derive(Clone, Copy, Debug, PartialEq, Eq, Structural)]
pub struct Type1000Adjunct {
    /// The abscissa of the first element.
    pub xstart: Float64,
    /// The step of the abscissa from one element to the next.
    pub xdelta: Float64,
    /// The code of the abscissa's unit.
    pub xunits: i32,
}

/// The adjunct header of the family 2000: two axes.
#[derive(Clone, Copy, Debug, PartialEq, Eq, Structural)]
pub struct Type2000Adjunct {
    /// The abscissa of a frame's first element.
    pub xstart: Float64,
    /// The step of the abscissa from one element to the next.
    pub xdelta: Float64,
    /// The code of the abscissa's unit.
    pub xunits: i32,
    /// The number of elements in a frame.
    pub subsize: i32,
    /// The ordinate of the first frame.
    pub ystart: Float64,
    /// The step of the ordinate from one frame to the next.
    pub ydelta: Float64,
    /// The code of the ordinate's unit.
    pub yunits: i32,
}

/// What `read_type1000_adjunct_header` returns: fewer than 256 bytes are no
/// adjunct header; otherwise the fields lie at fixed offsets.
pub open spec fn spec_type1000_adjunct(data: Seq<u8>, endianness: Endianness) -> Result<
    Type1000Adjunct,
    Error,
> {
    if data.len() < ADJUNCT_HEADER_SIZE {
        Err(Error::NotEnoughAdjunctHeaderBytes(data.len() as usize))
    } else {
        Ok(
            Type1000Adjunct {
                xstart: field_f64(data, 0, endianness),
                xdelta: field_f64(data, 8, endianness),
                xunits: field_i32(data, 16, endianness) as i32,
            },
        )
    }
}

/// What `read_type2000_adjunct_header` returns: fewer than 256 bytes are no
/// adjunct header; otherwise the fields lie at fixed offsets.
pub open spec fn spec_type2000_adjunct(data: Seq<u8>, endianness: Endianness) -> Result<
    Type2000Adjunct,
    Error,
> {
    if data.len() < ADJUNCT_HEADER_SIZE {
        Err(Error::NotEnoughAdjunctHeaderBytes(data.len() as usize))
    } else {
        Ok(
            Type2000Adjunct {
                xstart: field_f64(data, 0, endianness),
                xdelta: field_f64(data, 8, endianness),
                xunits: field_i32(data, 16, endianness) as i32,
                subsize: field_i32(data, 20, endianness) as i32,
                ystart: field_f64(data, 24, endianness),
                ydelta: field_f64(data, 32, endianness),
                yunits: field_i32(data, 40, endianness) as i32,
            },
        )
    }
}

/// Reads the adjunct header of a file of the family 1000 from what was read
/// at the adjunct header's offset. Its numbers are in the byte order of the
/// headers.
pub fn read_type1000_adjunct_header(data: &[u8], header: &Header) -> (r: Result<
    Type1000Adjunct,
    Error,
>)
    ensures
        r == spec_type1000_adjunct(data@, header.header_endianness),
{
    let n = data.len();
    if n < ADJUNCT_HEADER_SIZE {
        return Err(Error::NotEnoughAdjunctHeaderBytes(n));
    }
    let endianness = header.header_endianness;
    let xstart: Float64 = bytes_to_f64(&data[0..8], endianness)?;
    let xdelta: Float64 = bytes_to_f64(&data[8..16], endianness)?;
    let xunits: i32 = bytes_to_i32(&data[16..20], endianness)?;
    Ok(Type1000Adjunct { xstart, xdelta, xunits })
}

/// Reads the adjunct header of a file of the family 2000 from what was read
/// at the adjunct header's offset. Its numbers are in the byte order of the
/// headers.
pub fn read_type2000_adjunct_header(data: &[u8], header: &Header) -> (r: Result<
    Type2000Adjunct,
    Error,
>)
    ensures
        r == spec_type2000_adjunct(data@, header.header_endianness),
{
    let n = data.len();
    if n < ADJUNCT_HEADER_SIZE {
        return Err(Error::NotEnoughAdjunctHeaderBytes(n));
    }
    let endianness = header.header_endianness;
    let xstart: Float64 = bytes_to_f64(&data[0..8], endianness)?;
    let xdelta: Float64 = bytes_to_f64(&data[8..16], endianness)?;
    let xunits: i32 = bytes_to_i32(&data[16..20], endianness)?;
    let subsize: i32 = bytes_to_i32(&data[20..24], endianness)?;
    let ystart: Float64 = bytes_to_f64(&data[24..32], endianness)?;
    let ydelta: Float64 = bytes_to_f64(&data[32..40], endianness)?;
    let yunits: i32 = bytes_to_i32(&data[40..44], endianness)?;
    Ok(Type2000Adjunct { xstart, xdelta, xunits, subsize, ystart, ydelta, yunits })
}

} // verus!
