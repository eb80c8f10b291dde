//! A reader of X-Midas Bluefiles.
//!
//! A Bluefile is a main header of 256 bytes, an adjunct header of 256 bytes
//! whose layout the file's family decides, data whose elements are all of
//! one type, and an extended header of keyword records. This library turns
//! bytes into these parts. It opens and reads no file: the headers are read
//! from the bytes that are handed over, and the extended header and the data
//! are read either from the bytes of a whole file, or piece by piece through
//! a cursor that says how many bytes it wants next.
//!
//! Floating-point numbers are carried as their bit patterns (`Float32`,
//! `Float64`).
//!
//! ```no_run
//! use bluefile::{read_ext_header, read_header, Error};
//!
//! fn tags(file: &[u8]) -> Result<Vec<String>, Error> {
//!     let header = read_header(file)?;
//!     let keywords = read_ext_header(file, &header)?;
//!     Ok(keywords.into_iter().map(|keyword| keyword.tag).collect())
//! }
//! ```

pub mod adjunct;
pub mod ascii;
pub mod data;
pub mod data_type;
pub mod endian;
pub mod error;
pub mod ext_header;
pub mod float;
pub mod header;
pub mod keyword_block;
pub mod text;
pub mod trusted;
pub mod type1000;
pub mod type2000;
pub mod type_code;
pub mod util;

pub use crate::adjunct::{
    read_type1000_adjunct_header, read_type2000_adjunct_header, Type1000Adjunct, Type2000Adjunct,
};
pub use crate::data::{read_data, DataCursor};
pub use crate::data_type::{
    bytes_to_data_value, format_size, rank_multiple, DataType, DataValue, Format, Rank,
};
pub use crate::endian::Endianness;
pub use crate::error::Error;
pub use crate::ext_header::{
    parse_ext_keyword, read_ext_header, ExtEvent, ExtHeaderIter, ExtKeyword, ExtKeywordValue,
    ExtValue,
};
pub use crate::float::{Float32, Float64};
pub use crate::header::{
    is_blue, parse_header, parse_header_keywords, read_header, Header, HeaderKeyword,
};
pub use crate::type1000::{Type1000DataItem, Type1000DataIter, Type1000Reader};
pub use crate::type2000::{Type2000DataIter, Type2000Reader};
pub use crate::type_code::{parse_type_code, TypeCode};
pub use crate::util::{
    byte_to_i8, bytes_to_complex_f32, bytes_to_complex_f64, bytes_to_complex_i16,
    bytes_to_complex_i32, bytes_to_complex_i64, bytes_to_complex_i8, bytes_to_f32, bytes_to_f64,
    bytes_to_i16, bytes_to_i32, bytes_to_i64,
};
