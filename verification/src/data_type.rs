//! The matrix of rank and format: how wide an element is and how its bytes
//! are read.

use vstd::prelude::*;
use vstd::std_specs::convert::TryFromSpecImpl;
use num::complex::Complex;
use crate::ascii::{
    UPPER_B, UPPER_C, UPPER_D, UPPER_F, UPPER_I, UPPER_L, UPPER_S, UPPER_X,
};
use crate::endian::Endianness;
use crate::error::Error;
use crate::float::{Float32, Float64};
use crate::util::{
    byte_to_i8, bytes_to_complex_f32, bytes_to_complex_f64, bytes_to_complex_i16,
    bytes_to_complex_i32, bytes_to_complex_i64, bytes_to_complex_i8, bytes_to_f32, bytes_to_f64,
    bytes_to_i16, bytes_to_i32, bytes_to_i64, spec_byte_to_i8, spec_bytes_to_complex_f32,
    spec_bytes_to_complex_f64, spec_bytes_to_complex_i16, spec_bytes_to_complex_i32,
    spec_bytes_to_complex_i64, spec_bytes_to_complex_i8, spec_bytes_to_f32, spec_bytes_to_f64,
    spec_bytes_to_i16, spec_bytes_to_i32, spec_bytes_to_i64,
};

verus! {

/// Whether an element is one number or a pair of them.
#[derive(Debug, Clone, Copy, PartialEq, Eq, Structural)]
pub enum Rank {
    Scalar,
    Complex,
}

/// The rank that a header byte stands for: `S` or `C`.
pub open spec fn spec_rank(v: u8) -> Result<Rank, Error> {
    if v == UPPER_S {
        Ok(Rank::Scalar)
    } else if v == UPPER_C {
        Ok(Rank::Complex)
    } else {
        Err(Error::UnknownRankError)
    }
}

impl TryFrom<u8> for Rank {
    type Error = Error;

    fn try_from(v: u8) -> (r: Result<Self, Self::Error>) {
        if v == UPPER_S {
            Ok(Rank::Scalar)
        } else if v == UPPER_C {
            Ok(Rank::Complex)
        } else {
            Err(Error::UnknownRankError)
        }
    }
}

impl TryFromSpecImpl<u8> for Rank {
    open spec fn obeys_try_from_spec() -> bool {
        true
    }

    open spec fn try_from_spec(v: u8) -> Result<Self, Self::Error> {
        spec_rank(v)
    }
}

impl Rank {
    /// The rank's name in words.
    pub open spec fn spec_name(&self) -> Seq<char> {
        match self {
            Rank::Scalar => "scalar"@,
            Rank::Complex => "complex"@,
        }
    }

    /// The rank's name in words: `scalar` or `complex`.
    pub fn to_string(&self) -> (s: String)
        ensures
            s@ == self.spec_name(),
    {
        match self {
            Rank::Scalar => "scalar".to_owned(),
            Rank::Complex => "complex".to_owned(),
        }
    }
}

/// How many numbers an element of a rank holds.
pub open spec fn spec_rank_multiple(r: Rank) -> nat {
    match r {
        Rank::Scalar => 1,
        Rank::Complex => 2,
    }
}

/// How many numbers an element of a rank holds.
pub fn rank_multiple(r: &Rank) -> (n: usize)
    ensures
        n == spec_rank_multiple(*r),
{
    match r {
        Rank::Scalar => 1,
        Rank::Complex => 2,
    }
}

/// How each number of an element is written.
#[derive(Debug, Clone, Copy, PartialEq, Eq, Structural)]
pub enum Format {
    Byte,
    Int,
    Long,
    LongLong,
    Float,
    Double,
}

/// The format that a header byte stands for: one of `B`, `I`, `L`, `X`, `F`, `D`.
pub open spec fn spec_format(v: u8) -> Result<Format, Error> {
    if v == UPPER_B {
        Ok(Format::Byte)
    } else if v == UPPER_I {
        Ok(Format::Int)
    } else if v == UPPER_L {
        Ok(Format::Long)
    } else if v == UPPER_X {
        Ok(Format::LongLong)
    } else if v == UPPER_F {
        Ok(Format::Float)
    } else if v == UPPER_D {
        Ok(Format::Double)
    } else {
        Err(Error::UnknownFormatError)
    }
}

impl TryFrom<u8> for Format {
    type Error = Error;

    fn try_from(v: u8) -> (r: Result<Self, Self::Error>) {
        if v == UPPER_B {
            Ok(Format::Byte)
        } else if v == UPPER_I {
            Ok(Format::Int)
        } else if v == UPPER_L {
            Ok(Format::Long)
        } else if v == UPPER_X {
            Ok(Format::LongLong)
        } else if v == UPPER_F {
            Ok(Format::Float)
        } else if v == UPPER_D {
            Ok(Format::Double)
        } else {
            Err(Error::UnknownFormatError)
        }
    }
}

impl TryFromSpecImpl<u8> for Format {
    open spec fn obeys_try_from_spec() -> bool {
        true
    }

    open spec fn try_from_spec(v: u8) -> Result<Self, Self::Error> {
        spec_format(v)
    }
}

impl Format {
    /// The format's name in words.
    pub open spec fn spec_name(&self) -> Seq<char> {
        match self {
            Format::Byte => "byte"@,
            Format::Int => "int"@,
            Format::Long => "long"@,
            Format::LongLong => "long long"@,
            Format::Float => "float"@,
            Format::Double => "double"@,
        }
    }

    /// The format's name in words.
    pub fn to_string(&self) -> (s: String)
        ensures
            s@ == self.spec_name(),
    {
        match self {
            Format::Byte => "byte".to_owned(),
            Format::Int => "int".to_owned(),
            Format::Long => "long".to_owned(),
            Format::LongLong => "long long".to_owned(),
            Format::Float => "float".to_owned(),
            Format::Double => "double".to_owned(),
        }
    }
}

/// How many bytes one number of a format takes.
pub open spec fn spec_format_size(f: Format) -> nat {
    match f {
        Format::Byte => 1,
        Format::Int => 2,
        Format::Long => 4,
        Format::LongLong => 8,
        Format::Float => 4,
        Format::Double => 8,
    }
}

/// How many bytes one number of a format takes.
pub fn format_size(f: &Format) -> (n: usize)
    ensures
        n == spec_format_size(*f),
{
    match f {
        Format::Byte => 1,
        Format::Int => 2,
        Format::Long => 4,
        Format::LongLong => 8,
        Format::Float => 4,
        Format::Double => 8,
    }
}

/// Rank and format together: the type of every element of a file's data.
#[derive(Debug, Clone, Copy, PartialEq, Eq, Structural)]
pub struct DataType {
    pub rank: Rank,
    pub format: Format,
}

/// The data type that the two header bytes stand for. An unknown rank is
/// reported before an unknown format.
pub open spec fn spec_data_type(rank: u8, format: u8) -> Result<DataType, Error> {
    match spec_rank(rank) {
        Err(e) => Err(e),
        Ok(r) => match spec_format(format) {
            Err(e) => Err(e),
            Ok(f) => Ok(DataType { rank: r, format: f }),
        },
    }
}

impl DataType {
    /// The bytes that one element takes: the bytes of the format, once for a
    /// scalar and twice for a complex number.
    pub open spec fn spec_size(&self) -> nat {
        match self.rank {
            Rank::Scalar => spec_format_size(self.format),
            Rank::Complex => 2 * spec_format_size(self.format),
        }
    }

    /// The bytes that one element takes.
    pub fn size(&self) -> (n: usize)
        ensures
            n == self.spec_size(),
            n == spec_rank_multiple(self.rank) * spec_format_size(self.format),
            n == 1 || n == 2 || n == 4 || n == 8 || n == 16,
    {
        rank_multiple(&self.rank) * format_size(&self.format)
    }

    /// The two letters of the data type, the rank's and then the format's.
    pub open spec fn spec_name(&self) -> Seq<char> {
        match (self.rank, self.format) {
            (Rank::Scalar, Format::Byte) => "SB"@,
            (Rank::Scalar, Format::Int) => "SI"@,
            (Rank::Scalar, Format::Long) => "SL"@,
            (Rank::Scalar, Format::LongLong) => "SX"@,
            (Rank::Scalar, Format::Float) => "SF"@,
            (Rank::Scalar, Format::Double) => "SD"@,
            (Rank::Complex, Format::Byte) => "CB"@,
            (Rank::Complex, Format::Int) => "CI"@,
            (Rank::Complex, Format::Long) => "CL"@,
            (Rank::Complex, Format::LongLong) => "CX"@,
            (Rank::Complex, Format::Float) => "CF"@,
            (Rank::Complex, Format::Double) => "CD"@,
        }
    }

    /// The two letters of the data type, as the header spells them.
    pub fn to_string(&self) -> (s: String)
        ensures
            s@ == self.spec_name(),
    {
        match (self.rank, self.format) {
            (Rank::Scalar, Format::Byte) => "SB".to_owned(),
            (Rank::Scalar, Format::Int) => "SI".to_owned(),
            (Rank::Scalar, Format::Long) => "SL".to_owned(),
            (Rank::Scalar, Format::LongLong) => "SX".to_owned(),
            (Rank::Scalar, Format::Float) => "SF".to_owned(),
            (Rank::Scalar, Format::Double) => "SD".to_owned(),
            (Rank::Complex, Format::Byte) => "CB".to_owned(),
            (Rank::Complex, Format::Int) => "CI".to_owned(),
            (Rank::Complex, Format::Long) => "CL".to_owned(),
            (Rank::Complex, Format::LongLong) => "CX".to_owned(),
            (Rank::Complex, Format::Float) => "CF".to_owned(),
            (Rank::Complex, Format::Double) => "CD".to_owned(),
        }
    }

    /// The bytes that one element takes, straight from the two header bytes.
    /// An unknown rank is reported before an unknown format.
    pub fn num_bytes(rank: u8, format: u8) -> (r: Result<usize, Error>)
        ensures
            match spec_data_type(rank, format) {
                Ok(t) => r == Ok::<usize, Error>(t.spec_size() as usize),
                Err(e) => r == Err::<usize, Error>(e),
            },
    {
        let mult: usize = if rank == UPPER_S {
            1
        } else if rank == UPPER_C {
            2
        } else {
            return Err(Error::UnknownRankError);
        };
        let size: usize = if format == UPPER_B {
            1
        } else if format == UPPER_I {
            2
        } else if format == UPPER_L {
            4
        } else if format == UPPER_X {
            8
        } else if format == UPPER_F {
            4
        } else if format == UPPER_D {
            8
        } else {
            return Err(Error::UnknownFormatError);
        };
        Ok(mult * size)
    }
}

/// An element's size is a power of two from 1 to 16.
pub proof fn lemma_size_values(t: DataType)
    ensures
        t.spec_size() == spec_rank_multiple(t.rank) * spec_format_size(t.format),
        t.spec_size() == 1 || t.spec_size() == 2 || t.spec_size() == 4 || t.spec_size() == 8
            || t.spec_size() == 16,
{
}

/// One element of a file's data, under the name of its data type: the rank's
/// letter and the format's.
#[derive(Debug, Clone, Copy, PartialEq)]
pub enum DataValue {
    SB(i8),
    SI(i16),
    SL(i32),
    SX(i64),
    SF(Float32),
    SD(Float64),
    CB(Complex<i8>),
    CI(Complex<i16>),
    CL(Complex<i32>),
    CX(Complex<i64>),
    CF(Complex<Float32>),
    CD(Complex<Float64>),
}

impl DataValue {
    /// The data type whose elements this value is one of.
    pub open spec fn spec_data_type(&self) -> DataType {
        match self {
            DataValue::SB(_) => DataType { rank: Rank::Scalar, format: Format::Byte },
            DataValue::SI(_) => DataType { rank: Rank::Scalar, format: Format::Int },
            DataValue::SL(_) => DataType { rank: Rank::Scalar, format: Format::Long },
            DataValue::SX(_) => DataType { rank: Rank::Scalar, format: Format::LongLong },
            DataValue::SF(_) => DataType { rank: Rank::Scalar, format: Format::Float },
            DataValue::SD(_) => DataType { rank: Rank::Scalar, format: Format::Double },
            DataValue::CB(_) => DataType { rank: Rank::Complex, format: Format::Byte },
            DataValue::CI(_) => DataType { rank: Rank::Complex, format: Format::Int },
            DataValue::CL(_) => DataType { rank: Rank::Complex, format: Format::Long },
            DataValue::CX(_) => DataType { rank: Rank::Complex, format: Format::LongLong },
            DataValue::CF(_) => DataType { rank: Rank::Complex, format: Format::Float },
            DataValue::CD(_) => DataType { rank: Rank::Complex, format: Format::Double },
        }
    }
}

/// Maps the success of a decoder into a variant of `DataValue`.
pub open spec fn wrap<T>(r: Result<T, Error>, f: spec_fn(T) -> DataValue) -> Result<
    DataValue,
    Error,
> {
    match r {
        Ok(x) => Ok(f(x)),
        Err(e) => Err(e),
    }
}

/// What `bytes_to_data_value` returns. A scalar byte is the buffer's first
/// byte; the other scalars take the whole buffer, which must have their
/// width; a complex value takes the front of the buffer.
pub open spec fn spec_bytes_to_data_value(
    data_type: DataType,
    endianness: Endianness,
    buf: Seq<u8>,
) -> Result<DataValue, Error> {
    match (data_type.rank, data_type.format) {
        (Rank::Scalar, Format::Byte) => if buf.len() == 0 {
            Err(Error::ByteConversionError)
        } else {
            wrap(spec_byte_to_i8(buf[0]), |x: i8| DataValue::SB(x))
        },
        (Rank::Scalar, Format::Int) => wrap(
            spec_bytes_to_i16(buf, endianness),
            |x: i16| DataValue::SI(x),
        ),
        (Rank::Scalar, Format::Long) => wrap(
            spec_bytes_to_i32(buf, endianness),
            |x: i32| DataValue::SL(x),
        ),
        (Rank::Scalar, Format::LongLong) => wrap(
            spec_bytes_to_i64(buf, endianness),
            |x: i64| DataValue::SX(x),
        ),
        (Rank::Scalar, Format::Float) => wrap(
            spec_bytes_to_f32(buf, endianness),
            |x: Float32| DataValue::SF(x),
        ),
        (Rank::Scalar, Format::Double) => wrap(
            spec_bytes_to_f64(buf, endianness),
            |x: Float64| DataValue::SD(x),
        ),
        (Rank::Complex, Format::Byte) => wrap(
            spec_bytes_to_complex_i8(buf),
            |x: Complex<i8>| DataValue::CB(x),
        ),
        (Rank::Complex, Format::Int) => wrap(
            spec_bytes_to_complex_i16(buf, endianness),
            |x: Complex<i16>| DataValue::CI(x),
        ),
        (Rank::Complex, Format::Long) => wrap(
            spec_bytes_to_complex_i32(buf, endianness),
            |x: Complex<i32>| DataValue::CL(x),
        ),
        (Rank::Complex, Format::LongLong) => wrap(
            spec_bytes_to_complex_i64(buf, endianness),
            |x: Complex<i64>| DataValue::CX(x),
        ),
        (Rank::Complex, Format::Float) => wrap(
            spec_bytes_to_complex_f32(buf, endianness),
            |x: Complex<Float32>| DataValue::CF(x),
        ),
        (Rank::Complex, Format::Double) => wrap(
            spec_bytes_to_complex_f64(buf, endianness),
            |x: Complex<Float64>| DataValue::CD(x),
        ),
    }
}

/// Reads the bytes of one element as a value of the given data type.
pub fn bytes_to_data_value(data_type: &DataType, endianness: Endianness, buf: &[u8]) -> (r: Result<
    DataValue,
    Error,
>)
    ensures
        r == spec_bytes_to_data_value(*data_type, endianness, buf@),
        r matches Ok(value) ==> value.spec_data_type() == *data_type,
{
    match data_type {
        DataType { rank: Rank::Scalar, format: Format::Byte } => {
            if buf.len() == 0 {
                return Err(Error::ByteConversionError);
            }
            Ok(DataValue::SB(byte_to_i8(buf[0])?))
        },
        DataType { rank: Rank::Scalar, format: Format::Int } => Ok(
            DataValue::SI(bytes_to_i16(buf, endianness)?),
        ),
        DataType { rank: Rank::Scalar, format: Format::Long } => Ok(
            DataValue::SL(bytes_to_i32(buf, endianness)?),
        ),
        DataType { rank: Rank::Scalar, format: Format::LongLong } => Ok(
            DataValue::SX(bytes_to_i64(buf, endianness)?),
        ),
        DataType { rank: Rank::Scalar, format: Format::Float } => Ok(
            DataValue::SF(bytes_to_f32(buf, endianness)?),
        ),
        DataType { rank: Rank::Scalar, format: Format::Double } => Ok(
            DataValue::SD(bytes_to_f64(buf, endianness)?),
        ),
        DataType { rank: Rank::Complex, format: Format::Byte } => Ok(
            DataValue::CB(bytes_to_complex_i8(buf)?),
        ),
        DataType { rank: Rank::Complex, format: Format::Int } => Ok(
            DataValue::CI(bytes_to_complex_i16(buf, endianness)?),
        ),
        DataType { rank: Rank::Complex, format: Format::Long } => Ok(
            DataValue::CL(bytes_to_complex_i32(buf, endianness)?),
        ),
        DataType { rank: Rank::Complex, format: Format::LongLong } => Ok(
            DataValue::CX(bytes_to_complex_i64(buf, endianness)?),
        ),
        DataType { rank: Rank::Complex, format: Format::Float } => Ok(
            DataValue::CF(bytes_to_complex_f32(buf, endianness)?),
        ),
        DataType { rank: Rank::Complex, format: Format::Double } => Ok(
            DataValue::CD(bytes_to_complex_f64(buf, endianness)?),
        ),
    }
}

} // verus!
