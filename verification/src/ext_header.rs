//! The extended header: a run of keyword records of varying length.

use vstd::prelude::*;
use vstd::slice::slice_to_vec;
use vstd::utf8::{decode_utf8, valid_utf8};
use crate::endian::Endianness;
use crate::error::Error;
use crate::float::{Float32, Float64};
use crate::header::{Header, HeaderView};
use crate::text::string_from_utf8;
use crate::util::{
    byte_to_i8, bytes_from, bytes_to_f32, bytes_to_f64, bytes_to_i16, bytes_to_i32, bytes_to_i64,
    capped_sum, lemma_push_then_concat, lemma_radix_values, lemma_signed_range, signed_value,
    unsigned_value,
};

verus! {

/// The bytes of a record's length field, which every record starts with.
pub const EXT_KEYWORD_LENGTH: usize = 4;

/// The bytes that a record's fixed fields take: the length field, the extra
/// length, the tag's length and the format.
pub const EXT_KEYWORD_FIXED: usize = 8;

/// The value of an extended header keyword, as the file holds it: the bytes,
/// and what is needed to read them.
#[derive(Debug, Clone, PartialEq)]
pub struct ExtKeywordValue {
    /// The letter that says how the bytes are to be read.
    pub format: char,
    /// The byte order of the numbers among the bytes.
    pub endianness: Endianness,
    /// The bytes of the value.
    pub raw_value: Vec<u8>,
}

/// A keyword of the extended header.
#[derive(Debug, Clone, PartialEq)]
pub struct ExtKeyword {
    /// The length of the whole record in bytes, its length field included.
    pub length: usize,
    /// The keyword's name.
    pub tag: String,
    /// The keyword's value.
    pub value: ExtKeywordValue,
}

/// An extended header keyword with its tag as text and its value as bytes.
pub struct ExtKeywordView {
    pub length: usize,
    pub tag: Seq<char>,
    pub format: char,
    pub endianness: Endianness,
    pub raw_value: Seq<u8>,
}

impl View for ExtKeyword {
    type V = ExtKeywordView;

    open spec fn view(&self) -> ExtKeywordView {
        ExtKeywordView {
            length: self.length,
            tag: self.tag@,
            format: self.value.format,
            endianness: self.value.endianness,
            raw_value: self.value.raw_value@,
        }
    }
}

/// The keywords of a list in their views, in the list's order.
pub open spec fn ext_keywords_view(s: Seq<ExtKeyword>) -> Seq<ExtKeywordView> {
    s.map_values(|k: ExtKeyword| k@)
}

/// The value of an extended header keyword, read as its format says.
#[derive(Debug, Clone, PartialEq)]
pub enum ExtValue {
    /// Text: the formats `A`, `S` and `Z`.
    Text(String),
    /// A signed byte: the format `B`.
    Byte(i8),
    /// An unsigned byte: the format `O`.
    Offset(u8),
    /// A 16-bit number: the format `I`.
    Int(i16),
    /// A 32-bit number: the format `L`.
    Long(i32),
    /// A 64-bit number: the format `X`.
    LongLong(i64),
    /// A single-precision number: the format `F`.
    Float(Float32),
    /// A double-precision number: the format `D`.
    Double(Float64),
    /// A value of a format that is not known.
    Unknown,
}

/// A value with its text in its view.
pub enum ExtValueView {
    Text(Seq<char>),
    Byte(i8),
    Offset(u8),
    Int(i16),
    Long(i32),
    LongLong(i64),
    Float(Float32),
    Double(Float64),
    Unknown,
}

impl View for ExtValue {
    type V = ExtValueView;

    open spec fn view(&self) -> ExtValueView {
        match self {
            ExtValue::Text(s) => ExtValueView::Text(s@),
            ExtValue::Byte(x) => ExtValueView::Byte(*x),
            ExtValue::Offset(x) => ExtValueView::Offset(*x),
            ExtValue::Int(x) => ExtValueView::Int(*x),
            ExtValue::Long(x) => ExtValueView::Long(*x),
            ExtValue::LongLong(x) => ExtValueView::LongLong(*x),
            ExtValue::Float(x) => ExtValueView::Float(*x),
            ExtValue::Double(x) => ExtValueView::Double(*x),
            ExtValue::Unknown => ExtValueView::Unknown,
        }
    }
}

/// What `ExtKeywordValue::decode` returns. Text takes all of the bytes, which
/// must be UTF-8; a number takes the first bytes of its width, of which
/// there must be enough, and a signed byte must be at most 127. A format
/// that is not known has no reading, which is no error.
pub open spec fn spec_decode(format: char, endianness: Endianness, raw: Seq<u8>) -> Result<
    ExtValueView,
    Error,
> {
    if format == 'A' || format == 'S' || format == 'Z' {
        if valid_utf8(raw) {
            Ok(ExtValueView::Text(decode_utf8(raw)))
        } else {
            Err(Error::ByteConversionError)
        }
    } else if format == 'B' {
        if raw.len() >= 1 && raw[0] <= 127 {
            Ok(ExtValueView::Byte(raw[0] as i8))
        } else {
            Err(Error::ByteConversionError)
        }
    } else if format == 'O' {
        if raw.len() >= 1 {
            Ok(ExtValueView::Offset(raw[0]))
        } else {
            Err(Error::ByteConversionError)
        }
    } else if format == 'I' {
        if raw.len() >= 2 {
            Ok(ExtValueView::Int(signed_value(raw.subrange(0, 2), endianness) as i16))
        } else {
            Err(Error::ByteConversionError)
        }
    } else if format == 'L' {
        if raw.len() >= 4 {
            Ok(ExtValueView::Long(signed_value(raw.subrange(0, 4), endianness) as i32))
        } else {
            Err(Error::ByteConversionError)
        }
    } else if format == 'X' {
        if raw.len() >= 8 {
            Ok(ExtValueView::LongLong(signed_value(raw.subrange(0, 8), endianness) as i64))
        } else {
            Err(Error::ByteConversionError)
        }
    } else if format == 'F' {
        if raw.len() >= 4 {
            Ok(
                ExtValueView::Float(
                    Float32 { bits: unsigned_value(raw.subrange(0, 4), endianness) as u32 },
                ),
            )
        } else {
            Err(Error::ByteConversionError)
        }
    } else if format == 'D' {
        if raw.len() >= 8 {
            Ok(
                ExtValueView::Double(
                    Float64 { bits: unsigned_value(raw.subrange(0, 8), endianness) as u64 },
                ),
            )
        } else {
            Err(Error::ByteConversionError)
        }
    } else {
        Ok(ExtValueView::Unknown)
    }
}

impl ExtKeywordValue {
    /// Reads the value as its format says.
    pub fn decode(&self) -> (r: Result<ExtValue, Error>)
        ensures
            match r {
                Ok(value) => spec_decode(self.format, self.endianness, self.raw_value@) == Ok::<
                    ExtValueView,
                    Error,
                >(value@),
                Err(e) => spec_decode(self.format, self.endianness, self.raw_value@) == Err::<
                    ExtValueView,
                    Error,
                >(e),
            },
    {
        let raw = self.raw_value.as_slice();
        let n = raw.len();
        match self.format {
            'A' | 'S' | 'Z' => match string_from_utf8(raw) {
                Some(s) => Ok(ExtValue::Text(s)),
                None => Err(Error::ByteConversionError),
            },
            'B' => if n >= 1 {
                Ok(ExtValue::Byte(byte_to_i8(raw[0])?))
            } else {
                Err(Error::ByteConversionError)
            },
            'O' => if n >= 1 {
                Ok(ExtValue::Offset(raw[0]))
            } else {
                Err(Error::ByteConversionError)
            },
            'I' => if n >= 2 {
                Ok(ExtValue::Int(bytes_to_i16(&raw[0..2], self.endianness)?))
            } else {
                Err(Error::ByteConversionError)
            },
            'L' => if n >= 4 {
                Ok(ExtValue::Long(bytes_to_i32(&raw[0..4], self.endianness)?))
            } else {
                Err(Error::ByteConversionError)
            },
            'X' => if n >= 8 {
                Ok(ExtValue::LongLong(bytes_to_i64(&raw[0..8], self.endianness)?))
            } else {
                Err(Error::ByteConversionError)
            },
            'F' => if n >= 4 {
                Ok(ExtValue::Float(bytes_to_f32(&raw[0..4], self.endianness)?))
            } else {
                Err(Error::ByteConversionError)
            },
            'D' => if n >= 8 {
                Ok(ExtValue::Double(bytes_to_f64(&raw[0..8], self.endianness)?))
            } else {
                Err(Error::ByteConversionError)
            },
            _ => Ok(ExtValue::Unknown),
        }
    }
}

/// The length of a record's value: the record without its extra length,
/// which counts the fixed fields, the tag and the padding.
pub open spec fn value_length(v: Seq<u8>, key_length: usize, endianness: Endianness) -> int {
    key_length - signed_value(v.subrange(0, 2), endianness)
}

/// Whether a record's body agrees with its own lengths: it has its four fixed
/// bytes, the extra length is neither negative nor more than the record, and
/// the value and the tag after it lie within the body. The tag is text in
/// UTF-8.
pub open spec fn ext_body_fits(v: Seq<u8>, key_length: usize, endianness: Endianness) -> bool {
    let n = value_length(v, key_length, endianness);
    &&& v.len() >= 4
    &&& 0 <= n
    &&& signed_value(v.subrange(0, 2), endianness) >= 0
    &&& 4 + n + v[2] <= v.len()
    &&& valid_utf8(v.subrange(4 + n, 4 + n + v[2]))
}

/// What `parse_ext_keyword` returns. In a record's body the value comes
/// after the four fixed bytes and the tag comes after the value.
pub open spec fn spec_parse_ext_keyword(
    v: Seq<u8>,
    key_length: usize,
    endianness: Endianness,
) -> Result<ExtKeywordView, Error> {
    let n = value_length(v, key_length, endianness);
    if ext_body_fits(v, key_length, endianness) {
        Ok(
            ExtKeywordView {
                length: key_length,
                tag: decode_utf8(v.subrange(4 + n, 4 + n + v[2])),
                format: v[3] as char,
                endianness,
                raw_value: v.subrange(4, 4 + n),
            },
        )
    } else {
        Err(Error::ExtHeaderKeywordReadError)
    }
}

/// Reads a keyword from the body of an extended header record: the record
/// without its length field, whose number is given as `key_length`.
pub fn parse_ext_keyword(v: &[u8], key_length: usize, endianness: Endianness) -> (r: Result<
    ExtKeyword,
    Error,
>)
    ensures
        match r {
            Ok(keyword) => spec_parse_ext_keyword(v@, key_length, endianness) == Ok::<
                ExtKeywordView,
                Error,
            >(keyword@),
            Err(e) => spec_parse_ext_keyword(v@, key_length, endianness) == Err::<
                ExtKeywordView,
                Error,
            >(e),
        },
{
    if v.len() < 4 {
        return Err(Error::ExtHeaderKeywordReadError);
    }
    let extra = bytes_to_i16(&v[0..2], endianness)?;
    if extra < 0 {
        return Err(Error::ExtHeaderKeywordReadError);
    }
    let extra_length = extra as usize;
    let tag_length = v[2] as usize;
    let format = v[3] as char;
    if extra_length > key_length {
        return Err(Error::ExtHeaderKeywordReadError);
    }
    let value_offset: usize = 4;
    let value_length: usize = key_length - extra_length;
    if value_length > v.len() - value_offset {
        return Err(Error::ExtHeaderKeywordReadError);
    }
    let tag_offset: usize = value_offset + value_length;
    if tag_length > v.len() - tag_offset {
        return Err(Error::ExtHeaderKeywordReadError);
    }
    let tag = match string_from_utf8(&v[tag_offset..tag_offset + tag_length]) {
        Some(s) => s,
        None => return Err(Error::ExtHeaderKeywordReadError),
    };
    let raw_value = slice_to_vec(&v[value_offset..value_offset + value_length]);
    let value = ExtKeywordValue { format, endianness, raw_value };
    Ok(ExtKeyword { length: key_length, tag, value })
}

/// What reading an extended header comes to: the keywords in the order of
/// the file, the bytes that were consumed, and the error that stopped the
/// reading, if one did.
pub struct ExtScan {
    pub keywords: Seq<ExtKeywordView>,
    pub consumed: nat,
    pub error: Option<Error>,
}

/// The records that lie back to back at the front of `region`, while fewer
/// than `size` bytes are consumed.
///
/// A record starts with its length in four bytes, which counts these four too
/// and so is at least eight, the fixed fields included. Where the region ends
/// before a length field or a body is complete, the reading ends without an
/// error; a length field that was read still counts as consumed. A record
/// whose length is less than eight, or whose body does not fit its lengths,
/// stops the reading with an error.
#[verifier::opaque]
pub open spec fn ext_records(region: Seq<u8>, size: int, endianness: Endianness) -> ExtScan
    decreases region.len(),
{
    if size <= 0 || region.len() < EXT_KEYWORD_LENGTH {
        ExtScan { keywords: Seq::empty(), consumed: 0, error: None }
    } else {
        let key_length = signed_value(region.take(4), endianness);
        if key_length < EXT_KEYWORD_FIXED {
            ExtScan {
                keywords: Seq::empty(),
                consumed: 4,
                error: Some(Error::ExtHeaderKeywordLengthParseError),
            }
        } else if region.len() < key_length {
            ExtScan { keywords: Seq::empty(), consumed: 4, error: None }
        } else {
            match spec_parse_ext_keyword(
                region.subrange(4, key_length),
                key_length as usize,
                endianness,
            ) {
                Err(e) => ExtScan {
                    keywords: Seq::empty(),
                    consumed: key_length as nat,
                    error: Some(e),
                },
                Ok(keyword) => {
                    let rest = ext_records(region.skip(key_length), size - key_length, endianness);
                    ExtScan {
                        keywords: seq![keyword] + rest.keywords,
                        consumed: key_length as nat + rest.consumed,
                        error: rest.error,
                    }
                },
            }
        }
    }
}

/// What reading the extended header of a file comes to, given the file's
/// bytes and its main header.
pub open spec fn spec_read_ext_header(file: Seq<u8>, header: HeaderView) -> ExtScan {
    ext_records(
        bytes_from(file, header.ext_start as int),
        header.ext_size as int,
        header.header_endianness,
    )
}

/// A cursor over the extended header of a file that is read piece by piece.
///
/// The cursor reads nothing itself. It says how many bytes it wants next
/// (`wanted`), and is handed what a read of exactly that many bytes at the
/// file's current position gave (`next`); the first read is made at
/// `offset`. It keeps count of the bytes consumed and knows when the
/// extended header is used up.
#[derive(Debug, Clone, Copy)]
pub struct ExtHeaderIter {
    consumed: usize,
    offset: usize,
    size: usize,
    endianness: Endianness,
    key_length: usize,
    done: bool,
}

/// What a cursor over an extended header holds.
pub struct ExtHeaderIterView {
    /// The bytes consumed so far.
    pub consumed: usize,
    /// Where the extended header starts in the file.
    pub offset: usize,
    /// The size of the extended header in bytes.
    pub size: usize,
    /// The byte order of the records' numbers.
    pub endianness: Endianness,
    /// The length of the record whose body is wanted; zero where a length
    /// field is wanted.
    pub key_length: usize,
    /// Whether the reading has ended before the extended header was used up.
    pub done: bool,
}

/// What handing bytes to a cursor over an extended header comes to.
#[derive(Debug, Clone, PartialEq)]
pub enum ExtEvent {
    /// A record's length was read; its body is wanted.
    Pending,
    /// A record was read whole.
    Keyword(ExtKeyword),
    /// There is nothing more: the extended header is used up, or the file
    /// gave fewer bytes than were wanted.
    End,
    /// The record is malformed, and the reading has ended.
    Malformed(Error),
}

/// An event with its keyword in its view.
pub enum ExtEventView {
    Pending,
    Keyword(ExtKeywordView),
    End,
    Malformed(Error),
}

impl View for ExtEvent {
    type V = ExtEventView;

    open spec fn view(&self) -> ExtEventView {
        match self {
            ExtEvent::Pending => ExtEventView::Pending,
            ExtEvent::Keyword(k) => ExtEventView::Keyword(k@),
            ExtEvent::End => ExtEventView::End,
            ExtEvent::Malformed(e) => ExtEventView::Malformed(*e),
        }
    }
}

/// A cursor that has read nothing yet.
pub open spec fn ext_cursor_start(
    offset: usize,
    size: usize,
    endianness: Endianness,
) -> ExtHeaderIterView {
    ExtHeaderIterView { consumed: 0, offset, size, endianness, key_length: 0, done: false }
}

/// The bytes that a cursor wants next: a record's body after its length, a
/// length field while the extended header is not used up, and nothing once
/// the reading has ended.
pub open spec fn ext_cursor_wanted(s: ExtHeaderIterView) -> usize {
    if s.done {
        0
    } else if s.key_length != 0 {
        (s.key_length - EXT_KEYWORD_LENGTH) as usize
    } else if s.consumed < s.size {
        EXT_KEYWORD_LENGTH
    } else {
        0
    }
}

/// A cursor and its event after it was handed `data`.
///
/// A cursor that wants nothing stays as it is. Data of another length than
/// was wanted is a read that came short: the reading ends, and nothing more
/// is consumed. A length field is consumed, and a length of less than eight
/// is malformed. A body is consumed and parsed; a malformed one ends the
/// reading.
#[verifier::opaque]
pub open spec fn ext_cursor_next(s: ExtHeaderIterView, data: Seq<u8>) -> (
    ExtHeaderIterView,
    ExtEventView,
) {
    let wanted = ext_cursor_wanted(s);
    if wanted == 0 {
        (s, ExtEventView::End)
    } else if data.len() != wanted {
        (ExtHeaderIterView { done: true, key_length: 0, ..s }, ExtEventView::End)
    } else if s.key_length == 0 {
        let length = signed_value(data, s.endianness);
        let consumed = capped_sum(s.consumed, EXT_KEYWORD_LENGTH);
        if length < EXT_KEYWORD_FIXED {
            (
                ExtHeaderIterView { consumed, done: true, ..s },
                ExtEventView::Malformed(Error::ExtHeaderKeywordLengthParseError),
            )
        } else {
            (ExtHeaderIterView { consumed, key_length: length as usize, ..s }, ExtEventView::Pending)
        }
    } else {
        let consumed = capped_sum(s.consumed, wanted);
        match spec_parse_ext_keyword(data, s.key_length, s.endianness) {
            Ok(keyword) => (
                ExtHeaderIterView { consumed, key_length: 0, ..s },
                ExtEventView::Keyword(keyword),
            ),
            Err(e) => (
                ExtHeaderIterView { consumed, key_length: 0, done: true, ..s },
                ExtEventView::Malformed(e),
            ),
        }
    }
}

impl View for ExtHeaderIter {
    type V = ExtHeaderIterView;

    closed spec fn view(&self) -> ExtHeaderIterView {
        ExtHeaderIterView {
            consumed: self.consumed,
            offset: self.offset,
            size: self.size,
            endianness: self.endianness,
            key_length: self.key_length,
            done: self.done,
        }
    }
}

impl ExtHeaderIter {
    /// A record's length, once read, is at least the fixed fields'.
    #[verifier::type_invariant]
    spec fn well_formed(self) -> bool {
        self.key_length == 0 || self.key_length >= EXT_KEYWORD_FIXED
    }

    /// A cursor over the extended header that starts at `offset` in the file
    /// and is `size` bytes long, its numbers in the given byte order.
    pub fn new(offset: usize, size: usize, endianness: Endianness) -> (it: Self)
        ensures
            it@ == ext_cursor_start(offset, size, endianness),
    {
        ExtHeaderIter { consumed: 0, offset, size, endianness, key_length: 0, done: false }
    }

    /// Where the extended header starts in the file.
    pub fn offset(&self) -> (n: usize)
        ensures
            n == self@.offset,
    {
        self.offset
    }

    /// The size of the extended header in bytes.
    pub fn size(&self) -> (n: usize)
        ensures
            n == self@.size,
    {
        self.size
    }

    /// The bytes consumed so far.
    pub fn consumed(&self) -> (n: usize)
        ensures
            n == self@.consumed,
    {
        self.consumed
    }

    /// How many bytes to read next and hand to `next`; zero where the
    /// sequence has ended.
    pub fn wanted(&self) -> (n: usize)
        ensures
            n == ext_cursor_wanted(self@),
    {
        proof {
            use_type_invariant(self);
        }
        if self.done {
            0
        } else if self.key_length != 0 {
            self.key_length - EXT_KEYWORD_LENGTH
        } else if self.consumed < self.size {
            EXT_KEYWORD_LENGTH
        } else {
            0
        }
    }

    /// Takes what a read of `wanted` bytes gave and says what it came to.
    /// Data of any other length stands for a read that came short.
    pub fn next(&mut self, data: &[u8]) -> (event: ExtEvent)
        ensures
            (final(self)@, event@) == ext_cursor_next(old(self)@, data@),
    {
        proof {
            use_type_invariant(&*self);
            reveal(ext_cursor_next);
        }
        let wanted = self.wanted();
        if wanted == 0 {
            return ExtEvent::End;
        }
        if data.len() != wanted {
            self.key_length = 0;
            self.done = true;
            return ExtEvent::End;
        }
        if self.key_length == 0 {
            self.consumed = self.consumed.saturating_add(EXT_KEYWORD_LENGTH);
            let length = match bytes_to_i32(data, self.endianness) {
                Ok(x) => x,
                Err(e) => {
                    self.done = true;
                    return ExtEvent::Malformed(e);
                },
            };
            if length < 8 {
                self.done = true;
                return ExtEvent::Malformed(Error::ExtHeaderKeywordLengthParseError);
            }
            self.key_length = length as usize;
            ExtEvent::Pending
        } else {
            let key_length = self.key_length;
            self.consumed = self.consumed.saturating_add(wanted);
            self.key_length = 0;
            match parse_ext_keyword(data, key_length, self.endianness) {
                Ok(keyword) => ExtEvent::Keyword(keyword),
                Err(e) => {
                    self.done = true;
                    ExtEvent::Malformed(e)
                },
            }
        }
    }
}

/// Whether a cursor stands at the start of a record, with `consumed` bytes
/// behind it.
pub open spec fn at_record_start(
    s: ExtHeaderIterView,
    first: ExtHeaderIterView,
    consumed: int,
) -> bool {
    s == (ExtHeaderIterView { consumed: consumed as usize, ..first }) && first.key_length == 0
        && !first.done && 0 <= consumed <= usize::MAX
}

/// Nothing is read where the extended header is used up or the region ends
/// before a length field.
pub proof fn lemma_ext_records_end(region: Seq<u8>, size: int, endianness: Endianness)
    requires
        size <= 0 || region.len() < EXT_KEYWORD_LENGTH,
    ensures
        ext_records(region, size, endianness) == (ExtScan {
            keywords: Seq::empty(),
            consumed: 0,
            error: None,
        }),
{
    reveal(ext_records);
}

/// A cursor at the start of a record that is handed the record's length
/// field does what `ext_records` says of this record's length.
pub proof fn lemma_cursor_reads_length(
    s: ExtHeaderIterView,
    first: ExtHeaderIterView,
    consumed: int,
    here: Seq<u8>,
)
    requires
        at_record_start(s, first, consumed),
        consumed < first.size,
        here.len() >= EXT_KEYWORD_LENGTH,
        consumed + here.len() <= usize::MAX,
    ensures
        ({
            let (t, event) = ext_cursor_next(s, here.take(4));
            let rest = ext_records(here, first.size - consumed, first.endianness);
            let key_length = signed_value(here.take(4), first.endianness);
            match event {
                ExtEventView::Malformed(e) => {
                    &&& t.consumed == consumed + 4
                    &&& rest == (ExtScan { keywords: Seq::empty(), consumed: 4, error: Some(e) })
                },
                ExtEventView::Pending => {
                    &&& key_length >= EXT_KEYWORD_FIXED
                    &&& t == (ExtHeaderIterView {
                        consumed: (consumed + 4) as usize,
                        key_length: key_length as usize,
                        ..first
                    })
                    &&& ext_cursor_wanted(t) == key_length - 4
                    &&& here.len() < key_length ==> rest == (ExtScan {
                        keywords: Seq::empty(),
                        consumed: 4,
                        error: None,
                    })
                },
                _ => false,
            }
        }),
{
    reveal(ext_records);
    reveal(ext_cursor_next);
    lemma_signed_range(here.take(4), first.endianness);
    lemma_radix_values();
}

/// A cursor that is handed the body of the record whose length it has read
/// does what `ext_records` says of this record.
pub proof fn lemma_cursor_reads_body(
    t: ExtHeaderIterView,
    first: ExtHeaderIterView,
    consumed: int,
    here: Seq<u8>,
)
    requires
        first.key_length == 0,
        !first.done,
        0 <= consumed < first.size,
        here.len() >= EXT_KEYWORD_LENGTH,
        consumed + here.len() <= usize::MAX,
        signed_value(here.take(4), first.endianness) >= EXT_KEYWORD_FIXED,
        here.len() >= signed_value(here.take(4), first.endianness),
        t == (ExtHeaderIterView {
            consumed: (consumed + 4) as usize,
            key_length: signed_value(here.take(4), first.endianness) as usize,
            ..first
        }),
    ensures
        ({
            let key_length = signed_value(here.take(4), first.endianness);
            let (u, event) = ext_cursor_next(t, here.subrange(4, key_length));
            let rest = ext_records(here, first.size - consumed, first.endianness);
            let next = ext_records(
                here.skip(key_length),
                first.size - consumed - key_length,
                first.endianness,
            );
            match event {
                ExtEventView::Malformed(e) => {
                    &&& u.consumed == consumed + key_length
                    &&& rest == (ExtScan {
                        keywords: Seq::empty(),
                        consumed: key_length as nat,
                        error: Some(e),
                    })
                },
                ExtEventView::Keyword(keyword) => {
                    &&& at_record_start(u, first, consumed + key_length)
                    &&& rest.keywords == seq![keyword] + next.keywords
                    &&& rest.error == next.error
                    &&& rest.consumed == key_length + next.consumed
                },
                _ => false,
            }
        }),
{
    reveal(ext_records);
    reveal(ext_cursor_next);
    lemma_signed_range(here.take(4), first.endianness);
    lemma_radix_values();
}

/// Reads the keywords of the extended header from the bytes of a file, whose
/// main header says where the extended header lies.
pub fn read_ext_header(file: &[u8], header: &Header) -> (r: Result<Vec<ExtKeyword>, Error>)
    ensures
        match r {
            Ok(keywords) => spec_read_ext_header(file@, header@).error is None
                && ext_keywords_view(keywords@) == spec_read_ext_header(file@, header@).keywords,
            Err(e) => spec_read_ext_header(file@, header@).error == Some(e),
        },
{
    let mut keywords: Vec<ExtKeyword> = Vec::new();
    let total = file.len();
    let start = header.ext_start;
    let size = header.ext_size;
    if start > total {
        proof {
            lemma_ext_records_end(Seq::empty(), size as int, header.header_endianness);
        }
        return Ok(keywords);
    }
    let mut it = ExtHeaderIter::new(start, size, header.header_endianness);
    let ghost region = file@.skip(start as int);
    let ghost first = it@;
    let ghost all = ext_records(region, size as int, first.endianness);
    proof {
        assert(region.skip(0) == region);
        assert(ext_keywords_view(keywords@) == Seq::<ExtKeywordView>::empty());
    }
    loop
        invariant_except_break
            at_record_start(it@, first, it@.consumed as int),
            ({
                let rest = ext_records(
                    region.skip(it@.consumed as int),
                    size - it@.consumed,
                    first.endianness,
                );
                &&& all.keywords == ext_keywords_view(keywords@) + rest.keywords
                &&& all.error == rest.error
            }),
        invariant
            start <= total == file@.len(),
            region == file@.skip(start as int),
            first == ext_cursor_start(start, size, header.header_endianness),
            all == spec_read_ext_header(file@, header@),
            it@.consumed <= total - start,
        ensures
            all.keywords == ext_keywords_view(keywords@),
            all.error is None,
        decreases total - start - it@.consumed,
    {
        let ghost before = it@.consumed as int;
        let ghost here = region.skip(before);
        let ghost rest = ext_records(here, size - before, first.endianness);
        let position = start + it.consumed();
        let wanted = it.wanted();
        if wanted == 0 || total - position < wanted {
            proof {
                lemma_ext_records_end(here, size - before, first.endianness);
            }
            break ;
        }
        proof {
            lemma_cursor_reads_length(it@, first, before, here);
            assert(here.take(4) == file@.subrange(position as int, position + 4));
        }
        let ghost key_length = signed_value(here.take(4), first.endianness);
        match it.next(&file[position..position + wanted]) {
            ExtEvent::Pending => {},
            ExtEvent::Malformed(e) => {
                return Err(e);
            },
            _ => {
                break ;
            },
        }
        let position = position + wanted;
        let wanted = it.wanted();
        if total - position < wanted {
            break ;
        }
        proof {
            lemma_cursor_reads_body(it@, first, before, here);
            assert(here.subrange(4, key_length) == file@.subrange(
                position as int,
                position + wanted,
            ));
            assert(here.skip(key_length) == region.skip(before + key_length));
        }
        match it.next(&file[position..position + wanted]) {
            ExtEvent::Keyword(keyword) => {
                proof {
                    let next = ext_records(
                        here.skip(key_length),
                        size - before - key_length,
                        first.endianness,
                    );
                    assert(ext_keywords_view(keywords@.push(keyword)) == ext_keywords_view(
                        keywords@,
                    ).push(keyword@));
                    lemma_push_then_concat(ext_keywords_view(keywords@), keyword@, next.keywords);
                }
                keywords.push(keyword);
            },
            ExtEvent::Malformed(e) => {
                return Err(e);
            },
            _ => {
                break ;
            },
        }
    }
    Ok(keywords)
}

/// What a cursor yields when it is driven over `region`: it is handed the
/// bytes that it wants, from the front of the region on, until it wants
/// nothing, the region has fewer bytes than it wants, or a record is
/// malformed.
pub open spec fn ext_cursor_run(s: ExtHeaderIterView, region: Seq<u8>) -> ExtScan
    decreases region.len(),
{
    let wanted = ext_cursor_wanted(s);
    if wanted == 0 || region.len() < wanted {
        ExtScan { keywords: Seq::empty(), consumed: s.consumed as nat, error: None }
    } else {
        let (t, event) = ext_cursor_next(s, region.take(wanted as int));
        match event {
            ExtEventView::Pending => ext_cursor_run(t, region.skip(wanted as int)),
            ExtEventView::Keyword(keyword) => {
                let rest = ext_cursor_run(t, region.skip(wanted as int));
                ExtScan { keywords: seq![keyword] + rest.keywords, ..rest }
            },
            ExtEventView::Malformed(e) => ExtScan {
                keywords: Seq::empty(),
                consumed: t.consumed as nat,
                error: Some(e),
            },
            ExtEventView::End => ExtScan {
                keywords: Seq::empty(),
                consumed: t.consumed as nat,
                error: None,
            },
        }
    }
}

/// A cursor that is driven over a region from the start of a record on
/// yields the keywords of the records that lie in the region, and stops
/// where the reading of the records stops.
pub proof fn lemma_cursor_yields_the_records(
    s: ExtHeaderIterView,
    first: ExtHeaderIterView,
    region: Seq<u8>,
)
    requires
        at_record_start(s, first, s.consumed as int),
        s.consumed + region.len() <= usize::MAX,
    ensures
        ({
            let driven = ext_cursor_run(s, region);
            let read = ext_records(region, first.size - s.consumed, first.endianness);
            &&& driven.keywords == read.keywords
            &&& driven.error == read.error
            &&& driven.consumed == s.consumed + read.consumed
        }),
    decreases region.len(),
{
    reveal_with_fuel(ext_cursor_run, 3);
    let consumed = s.consumed as int;
    let wanted = ext_cursor_wanted(s);
    if wanted == 0 || region.len() < wanted {
        lemma_ext_records_end(region, first.size - consumed, first.endianness);
    } else {
        lemma_cursor_reads_length(s, first, consumed, region);
        let (t, event) = ext_cursor_next(s, region.take(4));
        let key_length = signed_value(region.take(4), first.endianness);
        if event is Pending && region.len() >= key_length {
            lemma_cursor_reads_body(t, first, consumed, region);
            let body = region.skip(4);
            assert(body.take(key_length - 4) == region.subrange(4, key_length));
            assert(body.skip(key_length - 4) == region.skip(key_length));
            let (u, keyword) = ext_cursor_next(t, body.take(key_length - 4));
            if keyword is Keyword {
                lemma_cursor_yields_the_records(u, first, region.skip(key_length));
            }
        }
    }
}

/// Two cursors that were made for the same extended header yield the same
/// keywords from the same bytes, and these are the keywords that
/// `read_ext_header` returns.
pub proof fn lemma_ext_cursors_agree(a: ExtHeaderIterView, b: ExtHeaderIterView, region: Seq<u8>)
    requires
        a == ext_cursor_start(a.offset, a.size, a.endianness),
        b == ext_cursor_start(a.offset, a.size, a.endianness),
        region.len() <= usize::MAX,
    ensures
        ext_cursor_run(a, region) == ext_cursor_run(b, region),
        ext_cursor_run(a, region) == ext_records(region, a.size as int, a.endianness),
{
    lemma_cursor_yields_the_records(a, a, region);
    let driven = ext_cursor_run(a, region);
    let read = ext_records(region, a.size as int, a.endianness);
    assert(driven.consumed == read.consumed);
}

} // verus!
