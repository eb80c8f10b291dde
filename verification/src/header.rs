//! The main header: the first 256 bytes of a Bluefile.

use vstd::prelude::*;
use vstd::utf8::{decode_utf8, valid_utf8};
use crate::ascii::{EQUALS, UPPER_B, UPPER_E, UPPER_L, UPPER_U};
use crate::data_type::{spec_data_type, spec_format, spec_rank, DataType, Format, Rank};
use crate::endian::{spec_endianness, Endianness};
use crate::error::Error;
use crate::float::Float64;
use crate::text::string_from_utf8;
use crate::type_code::{parse_type_code, spec_parse_type_code, TypeCode};
use crate::util::{
    bytes_to_f64, bytes_to_i32, lemma_radix_values, lemma_signed_range, signed_value,
    unsigned_value,
};

verus! {

/// Where the main header starts, in bytes from the start of the file.
pub const COMMON_HEADER_OFFSET: usize = 0;

/// The size of the main header in bytes.
pub const COMMON_HEADER_SIZE: usize = 256;

/// Where the keyword block starts within the main header.
pub const HEADER_KEYWORD_OFFSET: usize = 164;

/// The size of the keyword block's region in bytes.
pub const HEADER_KEYWORD_LENGTH: usize = 92;

/// The bytes of one block: the extended header's start is counted in blocks.
pub const BLOCK_SIZE: usize = 512;

/// A keyword of the main header.
#[derive(Debug, Clone, PartialEq)]
pub struct HeaderKeyword {
    pub name: String,
    pub value: String,
}

/// A main header keyword as text.
pub struct HeaderKeywordView {
    pub name: Seq<char>,
    pub value: Seq<char>,
}

impl View for HeaderKeyword {
    type V = HeaderKeywordView;

    open spec fn view(&self) -> HeaderKeywordView {
        HeaderKeywordView { name: self.name@, value: self.value@ }
    }
}

/// The keywords of a list as text, in the list's order.
pub open spec fn keywords_view(s: Seq<HeaderKeyword>) -> Seq<HeaderKeywordView> {
    s.map_values(|k: HeaderKeyword| k@)
}

/// The main header.
#[derive(Debug, Clone)]
pub struct Header {
    /// The byte order of the numbers in the headers.
    pub header_endianness: Endianness,
    /// The byte order of the numbers in the data.
    pub data_endianness: Endianness,
    /// Where the extended header starts, in bytes from the start of the file.
    pub ext_start: usize,
    /// The size of the extended header in bytes.
    pub ext_size: usize,
    /// Where the data starts, in bytes. The format keeps this number as a
    /// double.
    pub data_start: Float64,
    /// The size of the data in bytes. The format keeps this number as a
    /// double.
    pub data_size: Float64,
    /// The family of the file and its exact code.
    pub type_code: TypeCode,
    /// Rank and format of the data's elements.
    pub data_type: DataType,
    /// When the data starts, in seconds since the first day of 1950.
    pub timecode: Float64,
    /// The keywords of the main header, in the order of the file.
    pub keywords: Vec<HeaderKeyword>,
}

/// The main header with its keywords as text.
pub struct HeaderView {
    pub header_endianness: Endianness,
    pub data_endianness: Endianness,
    pub ext_start: usize,
    pub ext_size: usize,
    pub data_start: Float64,
    pub data_size: Float64,
    pub type_code: TypeCode,
    pub data_type: DataType,
    pub timecode: Float64,
    pub keywords: Seq<HeaderKeywordView>,
}

impl View for Header {
    type V = HeaderView;

    open spec fn view(&self) -> HeaderView {
        HeaderView {
            header_endianness: self.header_endianness,
            data_endianness: self.data_endianness,
            ext_start: self.ext_start,
            ext_size: self.ext_size,
            data_start: self.data_start,
            data_size: self.data_size,
            type_code: self.type_code,
            data_type: self.data_type,
            timecode: self.timecode,
            keywords: keywords_view(self.keywords@),
        }
    }
}

/// Whether bytes start with the magic word `BLUE`.
pub open spec fn spec_is_blue(v: Seq<u8>) -> bool {
    v.len() >= 4 && v[0] == UPPER_B && v[1] == UPPER_L && v[2] == UPPER_U && v[3] == UPPER_E
}

/// Whether bytes start with the magic word `BLUE`.
pub fn is_blue(v: &[u8]) -> (b: bool)
    ensures
        b == spec_is_blue(v@),
{
    v.len() >= 4 && v[0] == UPPER_B && v[1] == UPPER_L && v[2] == UPPER_U && v[3] == UPPER_E
}

/// Where the scan of a keyword block stands: the keywords found so far, the
/// bytes of the name and of the value that are being read, and whether the
/// scan is past the name's `=` and looks for the value's end.
pub struct KeywordScan {
    pub found: Seq<HeaderKeywordView>,
    pub name: Seq<u8>,
    pub value: Seq<u8>,
    pub in_value: bool,
}

/// The scan before the first byte.
pub open spec fn scan_start() -> KeywordScan {
    KeywordScan { found: Seq::empty(), name: Seq::empty(), value: Seq::empty(), in_value: false }
}

/// One byte further. Within a name, `=` ends the name, a zero byte is
/// malformed, and any other byte belongs to the name. Within a value, a zero
/// byte ends the keyword, which must have a name and be text in UTF-8, and
/// any other byte belongs to the value. `None` is malformed input.
pub open spec fn scan_step(s: KeywordScan, b: u8) -> Option<KeywordScan> {
    if !s.in_value {
        if b == EQUALS {
            Some(KeywordScan { in_value: true, ..s })
        } else if b == 0 {
            None
        } else {
            Some(KeywordScan { name: s.name.push(b), ..s })
        }
    } else {
        if b != 0 {
            Some(KeywordScan { value: s.value.push(b), ..s })
        } else if s.name.len() > 0 && valid_utf8(s.name) && valid_utf8(s.value) {
            Some(
                KeywordScan {
                    found: s.found.push(
                        HeaderKeywordView {
                            name: decode_utf8(s.name),
                            value: decode_utf8(s.value),
                        },
                    ),
                    name: Seq::empty(),
                    value: Seq::empty(),
                    in_value: false,
                },
            )
        } else {
            None
        }
    }
}

/// The scan after all of the given bytes, byte by byte from the start.
pub open spec fn scan(bytes: Seq<u8>) -> Option<KeywordScan>
    decreases bytes.len(),
{
    if bytes.len() == 0 {
        Some(scan_start())
    } else {
        match scan(bytes.drop_last()) {
            Some(s) => scan_step(s, bytes.last()),
            None => None,
        }
    }
}

/// The keywords that a keyword block holds: the block is a run of
/// `name=value` pairs, each ended by a zero byte, and nothing else. A block
/// that ends within a pair is malformed.
pub open spec fn spec_keywords(bytes: Seq<u8>) -> Option<Seq<HeaderKeywordView>> {
    match scan(bytes) {
        Some(s) => if !s.in_value && s.name.len() == 0 {
            Some(s.found)
        } else {
            None
        },
        None => None,
    }
}

/// Once a scan has met malformed input, more bytes do not mend it.
pub proof fn lemma_scan_failure_is_final(bytes: Seq<u8>, n: int)
    requires
        0 <= n <= bytes.len(),
        scan(bytes.take(n)) is None,
    ensures
        scan(bytes) is None,
    decreases bytes.len() - n,
{
    if n < bytes.len() {
        assert(bytes.take(n + 1).drop_last() == bytes.take(n));
        lemma_scan_failure_is_final(bytes, n + 1);
    } else {
        assert(bytes.take(n) == bytes);
    }
}

/// What `parse_header_keywords` returns: the number of keywords in the first
/// `keylength` bytes of the region.
pub open spec fn spec_parse_header_keywords(v: Seq<u8>, keylength: usize) -> Result<usize, Error> {
    if keylength > HEADER_KEYWORD_LENGTH {
        Err(Error::InvalidHeaderKeywordLength(keylength))
    } else {
        match spec_keywords(v.take(keylength as int)) {
            Some(found) => Ok(found.len() as usize),
            None => Err(Error::HeaderKeywordParseError),
        }
    }
}

/// Reads the keywords in the first `keylength` bytes of the keyword region
/// `v` and appends them to `keywords`. On failure `keywords` is left as it
/// was.
pub fn parse_header_keywords(keywords: &mut Vec<HeaderKeyword>, v: &[u8], keylength: usize) -> (r:
    Result<usize, Error>)
    requires
        keylength <= HEADER_KEYWORD_LENGTH ==> keylength <= v@.len(),
    ensures
        r == spec_parse_header_keywords(v@, keylength),
        r is Ok ==> keywords_view(final(keywords)@) == keywords_view(old(keywords)@)
            + spec_keywords(v@.take(keylength as int))->Some_0,
        r is Err ==> final(keywords)@ == old(keywords)@,
{
    if keylength > HEADER_KEYWORD_LENGTH {
        return Err(Error::InvalidHeaderKeywordLength(keylength));
    }
    let ghost block = v@.take(keylength as int);
    let mut found: Vec<HeaderKeyword> = Vec::new();
    let mut name: Vec<u8> = Vec::new();
    let mut value: Vec<u8> = Vec::new();
    let mut in_value = false;
    let mut i: usize = 0;
    proof {
        assert(block.take(0) == Seq::<u8>::empty());
        assert(keywords_view(found@) == Seq::<HeaderKeywordView>::empty());
    }
    while i < keylength
        invariant
            i <= keylength <= v@.len(),
            keylength <= HEADER_KEYWORD_LENGTH,
            block == v@.take(keylength as int),
            scan(block.take(i as int)) == Some(
                KeywordScan {
                    found: keywords_view(found@),
                    name: name@,
                    value: value@,
                    in_value,
                },
            ),
            name@.len() <= i,
            value@.len() <= i,
            found@.len() <= i,
        decreases keylength - i,
    {
        let b = v[i];
        proof {
            assert(block.take(i + 1).drop_last() == block.take(i as int));
            assert(block.take(i + 1).last() == b);
        }
        if !in_value {
            if b == EQUALS {
                in_value = true;
            } else if b == 0 {
                proof {
                    lemma_scan_failure_is_final(block, i + 1);
                }
                return Err(Error::HeaderKeywordParseError);
            } else {
                name.push(b);
            }
        } else {
            if b != 0 {
                value.push(b);
            } else if name.len() == 0 {
                proof {
                    lemma_scan_failure_is_final(block, i + 1);
                }
                return Err(Error::HeaderKeywordParseError);
            } else {
                let keyword = match (
                    string_from_utf8(name.as_slice()),
                    string_from_utf8(value.as_slice()),
                ) {
                    (Some(n), Some(t)) => HeaderKeyword { name: n, value: t },
                    _ => {
                        proof {
                            lemma_scan_failure_is_final(block, i + 1);
                        }
                        return Err(Error::HeaderKeywordParseError);
                    },
                };
                proof {
                    assert(keywords_view(found@.push(keyword)) == keywords_view(found@).push(
                        keyword@,
                    ));
                }
                found.push(keyword);
                name = Vec::new();
                value = Vec::new();
                in_value = false;
            }
        }
        i += 1;
    }
    proof {
        assert(block.take(keylength as int) == block);
    }
    if in_value || name.len() > 0 {
        return Err(Error::HeaderKeywordParseError);
    }
    let count = found.len();
    proof {
        assert(keywords_view(old(keywords)@ + found@) == keywords_view(old(keywords)@)
            + keywords_view(found@));
    }
    keywords.append(&mut found);
    Ok(count)
}

/// The number that the four bytes at `offset` spell in two's complement.
pub open spec fn field_i32(data: Seq<u8>, offset: int, endianness: Endianness) -> int {
    signed_value(data.subrange(offset, offset + 4), endianness)
}

/// The double whose bit pattern the eight bytes at `offset` spell.
pub open spec fn field_f64(data: Seq<u8>, offset: int, endianness: Endianness) -> Float64 {
    Float64 { bits: unsigned_value(data.subrange(offset, offset + 8), endianness) as u64 }
}

/// A signed 32-bit number taken as a count of bytes, as a cast to `usize`
/// takes it: the number itself where it is not negative, and otherwise the
/// number plus two to the power of the bits of `usize`.
pub open spec fn count_of(x: int) -> int {
    if x >= 0 {
        x
    } else {
        x + usize::MAX + 1
    }
}

/// A count of blocks in bytes: the count times the 512 bytes of a block,
/// within the range of `usize`, where a product beyond that range wraps round.
pub open spec fn blocks_in_bytes(blocks: int) -> int {
    (count_of(blocks) * BLOCK_SIZE) % (usize::MAX + 1)
}

/// A signed 32-bit number taken as a count of bytes.
fn count_from(x: i32) -> (n: usize)
    ensures
        n == count_of(x as int),
{
    if x >= 0 {
        x as usize
    } else {
        usize::MAX - ((-(x + 1)) as usize)
    }
}

/// A count of blocks in bytes is a whole number of blocks, and it is the
/// count times 512 wherever the count is not negative and the product is
/// within the range of `usize`.
pub proof fn lemma_blocks_in_bytes(blocks: int)
    requires
        i32::MIN <= blocks <= i32::MAX,
    ensures
        0 <= blocks_in_bytes(blocks) <= usize::MAX,
        blocks_in_bytes(blocks) % 512 == 0,
        0 <= blocks && blocks * 512 <= usize::MAX ==> blocks_in_bytes(blocks) == blocks * 512,
{
    let bytes = count_of(blocks) * 512;
    assert(bytes % 512 == 0);
    if usize::MAX == 0xffff_ffff {
        assert((bytes % 0x1_0000_0000) % 512 == 0);
    } else {
        assert(usize::MAX == 0xffff_ffff_ffff_ffff);
        assert((bytes % 0x1_0000_0000_0000_0000) % 512 == 0);
    }
}

/// The first thing that is wrong with a main header, if anything is. The
/// checks come in the order of the fields, the magic word first. The start
/// and the size of the extended header are never wrong.
pub open spec fn spec_header_error(data: Seq<u8>) -> Option<Error> {
    let order = spec_endianness(data.subrange(4, 8));
    if !spec_is_blue(data.subrange(0, 4)) {
        Some(Error::NotBlueFileError)
    } else if order is Err {
        Some(Error::InvalidEndianness)
    } else if spec_endianness(data.subrange(8, 12)) is Err {
        Some(Error::InvalidEndianness)
    } else {
        let e = order->Ok_0;
        let keylength = field_i32(data, 160, e);
        if spec_parse_type_code(data.subrange(48, 52), e) is Err {
            Some(Error::UnknownFileTypeCode(field_i32(data, 48, e) as i32))
        } else if spec_rank(data[52]) is Err {
            Some(Error::UnknownRankError)
        } else if spec_format(data[53]) is Err {
            Some(Error::UnknownFormatError)
        } else if keylength < 0 {
            Some(Error::HeaderKeywordLengthParseError)
        } else if keylength > HEADER_KEYWORD_LENGTH {
            Some(Error::InvalidHeaderKeywordLength(keylength as usize))
        } else if spec_keywords(
            data.subrange(HEADER_KEYWORD_OFFSET as int, HEADER_KEYWORD_OFFSET + keylength),
        ) is None {
            Some(Error::HeaderKeywordParseError)
        } else {
            None
        }
    }
}

/// The fields of a main header with which nothing is wrong.
pub open spec fn spec_header_fields(data: Seq<u8>) -> HeaderView {
    let e = spec_endianness(data.subrange(4, 8))->Ok_0;
    HeaderView {
        header_endianness: e,
        data_endianness: spec_endianness(data.subrange(8, 12))->Ok_0,
        ext_start: blocks_in_bytes(field_i32(data, 24, e)) as usize,
        ext_size: count_of(field_i32(data, 28, e)) as usize,
        data_start: field_f64(data, 32, e),
        data_size: field_f64(data, 40, e),
        type_code: spec_parse_type_code(data.subrange(48, 52), e)->Ok_0,
        data_type: spec_data_type(data[52], data[53])->Ok_0,
        timecode: field_f64(data, 56, e),
        keywords: spec_keywords(
            data.subrange(
                HEADER_KEYWORD_OFFSET as int,
                HEADER_KEYWORD_OFFSET + field_i32(data, 160, e),
            ),
        )->Some_0,
    }
}

/// What `parse_header` returns: the header's fields, or the first thing that
/// is wrong with it.
pub open spec fn spec_parse_header(data: Seq<u8>) -> Result<HeaderView, Error> {
    match spec_header_error(data) {
        Some(e) => Err(e),
        None => Ok(spec_header_fields(data)),
    }
}

/// Reads the main header from the first 256 bytes of a file.
///
/// The magic word is checked before any other field is looked at. The
/// extended header's start, which the file counts in blocks, comes out in
/// bytes; its start and its size are taken as counts whatever they are, and
/// fail no header.
pub fn parse_header(data: &[u8]) -> (r: Result<Header, Error>)
    requires
        data@.len() >= COMMON_HEADER_SIZE,
    ensures
        match r {
            Ok(header) => spec_parse_header(data@) == Ok::<HeaderView, Error>(header@),
            Err(e) => spec_parse_header(data@) == Err::<HeaderView, Error>(e),
        },
        !spec_is_blue(data@) ==> r is Err && r->Err_0 == Error::NotBlueFileError,
        r matches Ok(header) ==> header.ext_start % 512 == 0 && ({
            let blocks = field_i32(data@, 24, header.header_endianness);
            0 <= blocks && blocks * 512 <= usize::MAX ==> header.ext_start == blocks * 512
        }),
{
    proof {
        assert(spec_is_blue(data@.subrange(0, 4)) == spec_is_blue(data@));
    }
    if !is_blue(&data[0..4]) {
        return Err(Error::NotBlueFileError);
    }
    let header_endianness = Endianness::try_from(&data[4..8])?;
    let data_endianness = Endianness::try_from(&data[8..12])?;
    let ext_blocks = bytes_to_i32(&data[24..28], header_endianness)?;
    let ext_start = count_from(ext_blocks).wrapping_mul(BLOCK_SIZE);
    let ext_size = count_from(bytes_to_i32(&data[28..32], header_endianness)?);
    proof {
        lemma_blocks_in_bytes(ext_blocks as int);
    }
    let data_start = bytes_to_f64(&data[32..40], header_endianness)?;
    let data_size = bytes_to_f64(&data[40..48], header_endianness)?;
    let type_code = parse_type_code(&data[48..52], header_endianness)?;
    let data_type = DataType {
        rank: Rank::try_from(data[52])?,
        format: Format::try_from(data[53])?,
    };
    let timecode = bytes_to_f64(&data[56..64], header_endianness)?;
    let keybytes = bytes_to_i32(&data[160..164], header_endianness)?;
    if keybytes < 0 {
        return Err(Error::HeaderKeywordLengthParseError);
    }
    let keylength = keybytes as usize;
    let mut keywords = Vec::new();
    proof {
        if keylength <= HEADER_KEYWORD_LENGTH {
            assert(data@.subrange(
                HEADER_KEYWORD_OFFSET as int,
                HEADER_KEYWORD_OFFSET + HEADER_KEYWORD_LENGTH,
            ).take(keylength as int) == data@.subrange(
                HEADER_KEYWORD_OFFSET as int,
                HEADER_KEYWORD_OFFSET + keylength,
            ));
        }
    }
    parse_header_keywords(
        &mut keywords,
        &data[HEADER_KEYWORD_OFFSET..HEADER_KEYWORD_OFFSET + HEADER_KEYWORD_LENGTH],
        keylength,
    )?;
    let header = Header {
        header_endianness,
        data_endianness,
        ext_start,
        ext_size,
        data_start,
        data_size,
        type_code,
        data_type,
        timecode,
        keywords,
    };
    proof {
        assert(header@.keywords == spec_header_fields(data@).keywords);
    }
    Ok(header)
}

/// A header without the magic word is refused for that, whatever else it
/// holds: two headers that both lack it fail alike.
pub proof fn lemma_magic_comes_first(data: Seq<u8>, other: Seq<u8>)
    requires
        !spec_is_blue(data.subrange(0, 4)),
        !spec_is_blue(other.subrange(0, 4)),
    ensures
        spec_parse_header(data) == Err::<HeaderView, Error>(Error::NotBlueFileError),
        spec_parse_header(data) == spec_parse_header(other),
{
}

/// In every header that is accepted, the extended header starts at a whole
/// number of blocks of 512 bytes. Where the count of blocks that the header
/// holds is not negative and its product with 512 is within the range of
/// `usize`, the start is that product; and where the size that the header
/// holds is not negative, the size is that number.
pub proof fn lemma_ext_start_in_blocks(data: Seq<u8>)
    requires
        data.len() >= COMMON_HEADER_SIZE,
    ensures
        spec_parse_header(data) matches Ok(header) ==> {
            let blocks = field_i32(data, 24, header.header_endianness);
            let size = field_i32(data, 28, header.header_endianness);
            &&& header.ext_start % 512 == 0
            &&& 0 <= blocks && blocks * 512 <= usize::MAX ==> header.ext_start == blocks * 512
            &&& 0 <= size ==> header.ext_size == size
        },
{
    if spec_parse_header(data) is Ok {
        let e = spec_parse_header(data)->Ok_0.header_endianness;
        lemma_signed_range(data.subrange(24, 28), e);
        lemma_signed_range(data.subrange(28, 32), e);
        lemma_radix_values();
        lemma_blocks_in_bytes(field_i32(data, 24, e));
    }
}

/// What `read_header` returns: fewer than 256 bytes are no header; otherwise
/// the first 256 bytes are parsed.
pub open spec fn spec_read_header(data: Seq<u8>) -> Result<HeaderView, Error> {
    if data.len() < COMMON_HEADER_SIZE {
        Err(Error::NotEnoughHeaderBytes(data.len() as usize))
    } else {
        spec_parse_header(data.take(COMMON_HEADER_SIZE as int))
    }
}

/// Reads the main header from what was read at the start of a file.
pub fn read_header(data: &[u8]) -> (r: Result<Header, Error>)
    ensures
        match r {
            Ok(header) => spec_read_header(data@) == Ok::<HeaderView, Error>(header@),
            Err(e) => spec_read_header(data@) == Err::<HeaderView, Error>(e),
        },
{
    let n = data.len();
    if n < COMMON_HEADER_SIZE {
        return Err(Error::NotEnoughHeaderBytes(n));
    }
    let header = parse_header(&data[0..COMMON_HEADER_SIZE])?;
    Ok(header)
}

} // verus!
