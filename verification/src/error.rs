//! The failures that decoding a Bluefile can end in.

use vstd::prelude::*;

verus! {

/// Every way in which reading a Bluefile can fail.
#[derive(Debug, Clone, PartialEq)]
pub enum Error {
    /// The first four bytes are not `BLUE`.
    NotBlueFileError,
    /// The header's type code belongs to another family than the reader's.
    TypeCodeMismatchError,
    /// The rank byte is neither `S` nor `C`.
    UnknownRankError,
    /// The format byte is none of `B`, `I`, `L`, `X`, `F`, `D`.
    UnknownFormatError,
    /// Rank and format are known, but the pair has no decoder.
    UnknownDataTypeError,
    /// An endianness marker is neither `EEEI` nor `IEEE`.
    InvalidEndianness,
    /// Bytes do not convert to the requested number.
    ByteConversionError,
    /// The file at the given path could not be opened.
    FileOpenError(String),
    /// Reading from the file failed.
    FileReadError,
    /// Fewer bytes than a main header were read; holds how many.
    NotEnoughHeaderBytes(usize),
    /// Fewer bytes than an adjunct header were read; holds how many.
    NotEnoughAdjunctHeaderBytes(usize),
    /// The type code is outside the families 1000 to 6000; holds the code.
    UnknownFileTypeCode(i32),
    /// The keyword block claims more bytes than its region has; holds the claim.
    InvalidHeaderKeywordLength(usize),
    /// Seeking to the main header failed.
    HeaderSeekError,
    /// Seeking to the adjunct header failed.
    AdjunctHeaderSeekError,
    /// Seeking to the extended header failed.
    ExtHeaderSeekError,
    /// The main header's keyword block is not a run of `name=value\0` pairs.
    HeaderKeywordParseError,
    /// The length of the main header's keyword block is negative.
    HeaderKeywordLengthParseError,
    /// An extended header record states a length that cannot hold a record.
    ExtHeaderKeywordLengthParseError,
    /// An extended header record's body contradicts its own lengths.
    ExtHeaderKeywordReadError,
    /// Seeking to the data failed.
    DataSeekError,
    /// The command line of the JSON front end is unusable.
    BluejayConfigError,
    /// The command line of the header dump front end is unusable.
    BluestatConfigError,
}

} // verus!
