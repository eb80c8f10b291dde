use bluefile::{
    is_blue, parse_header, parse_header_keywords, read_header, DataType, Endianness, Error,
    Format, Header, HeaderKeyword, Rank, TypeCode,
};

fn keyword(name: &str, value: &str) -> HeaderKeyword {
    HeaderKeyword { name: name.to_string(), value: value.to_string() }
}

/// A little-endian main header with the given fields and keyword block.
fn main_header(type_code: i32, data_type: &[u8; 2], keywords: &[u8]) -> Vec<u8> {
    let mut h = vec![0u8; 256];
    h[0..4].copy_from_slice(b"BLUE");
    h[4..8].copy_from_slice(b"EEEI");
    h[8..12].copy_from_slice(b"EEEI");
    h[24..28].copy_from_slice(&0i32.to_le_bytes());
    h[28..32].copy_from_slice(&0i32.to_le_bytes());
    h[32..40].copy_from_slice(&512.0f64.to_le_bytes());
    h[40..48].copy_from_slice(&32768.0f64.to_le_bytes());
    h[48..52].copy_from_slice(&type_code.to_le_bytes());
    h[52..54].copy_from_slice(data_type);
    h[56..64].copy_from_slice(&0.0f64.to_le_bytes());
    h[160..164].copy_from_slice(&(keywords.len() as i32).to_le_bytes());
    h[164..164 + keywords.len()].copy_from_slice(keywords);
    h
}

fn good_header() -> Vec<u8> {
    main_header(1000, b"SD", b"VER=1.1\0IO=X-Midas\0")
}

#[test]
fn read_bad_header_test() {
    let mut image = good_header();
    image[0..4].copy_from_slice(b"BLUF");
    let _header: Header = match read_header(&image) {
        Ok(_) => panic!("This header should have produced an error"),
        Err(_) => Header {
            header_endianness: Endianness::Little,
            data_endianness: Endianness::Little,
            ext_start: 0,
            ext_size: 0,
            data_start: bluefile::Float64::from_bits(0.0f64.to_bits()),
            data_size: bluefile::Float64::from_bits(0.0f64.to_bits()),
            type_code: TypeCode::Type1000(1000),
            data_type: DataType { format: Format::Byte, rank: Rank::Scalar },
            timecode: bluefile::Float64::from_bits(0.0f64.to_bits()),
            keywords: vec![],
        },
    };
}

#[test]
fn magic_word() {
    assert!(is_blue(b"BLUE"));
    assert!(is_blue(b"BLUEEEEI"));
    assert!(!is_blue(b"BLUF"));
    assert!(!is_blue(b"blue"));
    assert!(!is_blue(b"BLU"));
    assert!(!is_blue(b""));
    assert!(!is_blue(b"EULB"));
}

#[test]
fn header_fields_in_place() {
    let mut image = main_header(2001, b"CF", b"A=b\0");
    image[24..28].copy_from_slice(&3i32.to_le_bytes());
    image[28..32].copy_from_slice(&77i32.to_le_bytes());
    image[32..40].copy_from_slice(&1024.0f64.to_le_bytes());
    image[40..48].copy_from_slice(&1600.0f64.to_le_bytes());
    image[56..64].copy_from_slice(&1.5e9f64.to_le_bytes());
    let header = parse_header(&image).unwrap();
    assert_eq!(header.header_endianness, Endianness::Little);
    assert_eq!(header.data_endianness, Endianness::Little);
    assert_eq!(header.ext_start, 3 * 512);
    assert_eq!(header.ext_size, 77);
    assert_eq!(f64::from_bits(header.data_start.to_bits()), 1024.0);
    assert_eq!(f64::from_bits(header.data_size.to_bits()), 1600.0);
    assert_eq!(header.type_code, TypeCode::Type2000(2001));
    assert_eq!(header.data_type, DataType { rank: Rank::Complex, format: Format::Float });
    assert_eq!(f64::from_bits(header.timecode.to_bits()), 1.5e9);
    assert_eq!(header.keywords, vec![keyword("A", "b")]);
}

#[test]
fn header_and_data_orders_are_independent() {
    let mut image = vec![0u8; 256];
    image[0..4].copy_from_slice(b"BLUE");
    image[4..8].copy_from_slice(b"IEEE");
    image[8..12].copy_from_slice(b"EEEI");
    image[24..28].copy_from_slice(&2i32.to_be_bytes());
    image[28..32].copy_from_slice(&40i32.to_be_bytes());
    image[32..40].copy_from_slice(&512.0f64.to_be_bytes());
    image[40..48].copy_from_slice(&64.0f64.to_be_bytes());
    image[48..52].copy_from_slice(&1000i32.to_be_bytes());
    image[52..54].copy_from_slice(b"SI");
    image[160..164].copy_from_slice(&4i32.to_be_bytes());
    image[164..168].copy_from_slice(b"K=v\0");
    let header = parse_header(&image).unwrap();
    assert_eq!(header.header_endianness, Endianness::Big);
    assert_eq!(header.data_endianness, Endianness::Little);
    assert_eq!(header.ext_start, 1024);
    assert_eq!(header.ext_size, 40);
    assert_eq!(f64::from_bits(header.data_start.to_bits()), 512.0);
    assert_eq!(f64::from_bits(header.data_size.to_bits()), 64.0);
    assert_eq!(header.type_code, TypeCode::Type1000(1000));
    assert_eq!(header.keywords, vec![keyword("K", "v")]);
}

#[test]
fn ext_start_is_counted_in_blocks() {
    for blocks in [0i32, 1, 2, 257, 4096, 65535] {
        let mut image = good_header();
        image[24..28].copy_from_slice(&blocks.to_le_bytes());
        let header = parse_header(&image).unwrap();
        assert_eq!(header.ext_start, blocks as usize * 512);
        assert_eq!(header.ext_start % 512, 0);
    }
}

#[test]
fn short_headers_are_refused_with_their_length() {
    let image = good_header();
    assert!(matches!(read_header(&image[..255]), Err(Error::NotEnoughHeaderBytes(255))));
    assert!(matches!(read_header(&image[..4]), Err(Error::NotEnoughHeaderBytes(4))));
    assert!(matches!(read_header(&[]), Err(Error::NotEnoughHeaderBytes(0))));
    let mut bad = image.clone();
    bad[0] = b'X';
    assert!(matches!(read_header(&bad[..100]), Err(Error::NotEnoughHeaderBytes(100))));
    assert!(matches!(read_header(&bad), Err(Error::NotBlueFileError)));
}

#[test]
fn read_header_looks_at_the_first_256_bytes() {
    let mut image = good_header();
    image.extend_from_slice(&[0xff; 300]);
    let header = read_header(&image).unwrap();
    assert_eq!(header.type_code, TypeCode::Type1000(1000));
    assert_eq!(header.keywords, vec![keyword("VER", "1.1"), keyword("IO", "X-Midas")]);
}

#[test]
fn magic_is_checked_before_anything_else() {
    let mut image = vec![0xffu8; 256];
    assert!(matches!(parse_header(&image), Err(Error::NotBlueFileError)));
    image[0..4].copy_from_slice(b"BLUE");
    assert!(matches!(parse_header(&image), Err(Error::InvalidEndianness)));
    let mut image = good_header();
    image[0] = b'b';
    image[4] = b'X';
    image[48..52].copy_from_slice(&9000i32.to_le_bytes());
    assert!(matches!(parse_header(&image), Err(Error::NotBlueFileError)));
}

#[test]
fn header_errors_in_the_order_of_the_fields() {
    let mut image = good_header();
    image[8..12].copy_from_slice(b"EEEE");
    image[48..52].copy_from_slice(&7000i32.to_le_bytes());
    assert!(matches!(parse_header(&image), Err(Error::InvalidEndianness)));
    image[8..12].copy_from_slice(b"IEEE");
    image[52] = b'Q';
    assert!(matches!(parse_header(&image), Err(Error::UnknownFileTypeCode(7000))));
    image[48..52].copy_from_slice(&6000i32.to_le_bytes());
    image[53] = b'Q';
    assert!(matches!(parse_header(&image), Err(Error::UnknownRankError)));
    image[52] = b'C';
    image[160..164].copy_from_slice(&(-1i32).to_le_bytes());
    assert!(matches!(parse_header(&image), Err(Error::UnknownFormatError)));
    image[53] = b'X';
    assert!(matches!(parse_header(&image), Err(Error::HeaderKeywordLengthParseError)));
    image[160..164].copy_from_slice(&93i32.to_le_bytes());
    assert!(matches!(parse_header(&image), Err(Error::InvalidHeaderKeywordLength(93))));
    image[160..164].copy_from_slice(&20i32.to_le_bytes());
    assert!(matches!(parse_header(&image), Err(Error::HeaderKeywordParseError)));
    image[160..164].copy_from_slice(&19i32.to_le_bytes());
    let header = parse_header(&image).unwrap();
    assert_eq!(header.type_code, TypeCode::Type6000(6000));
    assert_eq!(header.data_endianness, Endianness::Big);
    assert_eq!(header.data_type, DataType { rank: Rank::Complex, format: Format::LongLong });
}

#[test]
fn extended_header_fields_are_taken_as_counts() {
    for size in [-1i32, -320, i32::MIN, 0, 320, i32::MAX] {
        let mut image = good_header();
        image[28..32].copy_from_slice(&size.to_le_bytes());
        let header = parse_header(&image).unwrap();
        assert_eq!(header.ext_size, size as usize);
        assert_eq!(header.ext_start, 0);
        assert_eq!(header.type_code, TypeCode::Type1000(1000));
        assert_eq!(header.keywords.len(), 2);
    }
    let mut image = good_header();
    image[28..32].copy_from_slice(&(-1i32).to_le_bytes());
    assert_eq!(parse_header(&image).unwrap().ext_size, usize::MAX);
}

#[test]
fn a_start_beyond_the_range_wraps_round() {
    for blocks in [-1i32, -2, -257, i32::MIN, i32::MAX, 1 << 23, 1 << 30] {
        let mut image = good_header();
        image[24..28].copy_from_slice(&blocks.to_le_bytes());
        let header = parse_header(&image).unwrap();
        assert_eq!(header.ext_start, (blocks as usize).wrapping_mul(512));
        assert_eq!(header.ext_start % 512, 0);
    }
    let mut image = good_header();
    image[24..28].copy_from_slice(&(-1i32).to_le_bytes());
    assert_eq!(parse_header(&image).unwrap().ext_start, usize::MAX - 511);
}

#[test]
fn extended_header_fields_hide_no_error() {
    let mut image = good_header();
    image[24..28].copy_from_slice(&(-7i32).to_le_bytes());
    image[28..32].copy_from_slice(&(-9i32).to_le_bytes());
    image[48..52].copy_from_slice(&999i32.to_le_bytes());
    image[52] = b'Q';
    image[53] = b'Q';
    image[160..164].copy_from_slice(&(-1i32).to_le_bytes());
    assert!(matches!(parse_header(&image), Err(Error::UnknownFileTypeCode(999))));
    image[48..52].copy_from_slice(&(-5i32).to_le_bytes());
    assert!(matches!(parse_header(&image), Err(Error::UnknownFileTypeCode(-5))));
    image[48..52].copy_from_slice(&2000i32.to_le_bytes());
    assert!(matches!(parse_header(&image), Err(Error::UnknownRankError)));
    image[52] = b'S';
    assert!(matches!(parse_header(&image), Err(Error::UnknownFormatError)));
    image[53] = b'B';
    assert!(matches!(parse_header(&image), Err(Error::HeaderKeywordLengthParseError)));
    image[160..164].copy_from_slice(&100i32.to_le_bytes());
    assert!(matches!(parse_header(&image), Err(Error::InvalidHeaderKeywordLength(100))));
    image[160..164].copy_from_slice(&18i32.to_le_bytes());
    assert!(matches!(parse_header(&image), Err(Error::HeaderKeywordParseError)));
    image[160..164].copy_from_slice(&19i32.to_le_bytes());
    let header = parse_header(&image).unwrap();
    assert_eq!(header.ext_start, (-7i32 as usize).wrapping_mul(512));
    assert_eq!(header.ext_size, -9i32 as usize);
    assert_eq!(header.type_code, TypeCode::Type2000(2000));
    assert_eq!(header.data_type, DataType { rank: Rank::Scalar, format: Format::Byte });
    image[8] = b'X';
    image[48..52].copy_from_slice(&999i32.to_le_bytes());
    assert!(matches!(parse_header(&image), Err(Error::InvalidEndianness)));
}

#[test]
fn keywords_are_appended_and_counted() {
    let mut keywords = vec![keyword("OLD", "one")];
    let region = {
        let mut r = vec![0u8; 92];
        r[..19].copy_from_slice(b"VER=1.1\0IO=X-Midas\0");
        r
    };
    assert_eq!(parse_header_keywords(&mut keywords, &region, 19), Ok(2));
    assert_eq!(
        keywords,
        vec![keyword("OLD", "one"), keyword("VER", "1.1"), keyword("IO", "X-Midas")]
    );
    assert_eq!(parse_header_keywords(&mut keywords, &region, 8), Ok(1));
    assert_eq!(keywords.len(), 4);
    assert_eq!(keywords[3], keyword("VER", "1.1"));
    assert_eq!(parse_header_keywords(&mut keywords, &region, 0), Ok(0));
    assert_eq!(keywords.len(), 4);
}

#[test]
fn keyword_values_may_hold_equal_signs_and_be_empty() {
    let mut keywords = Vec::new();
    let block = b"A=b=c\0EMPTY=\0X==\0";
    assert_eq!(parse_header_keywords(&mut keywords, block, block.len()), Ok(3));
    assert_eq!(keywords, vec![keyword("A", "b=c"), keyword("EMPTY", ""), keyword("X", "=")]);
}

#[test]
fn the_whole_keyword_region_can_be_used() {
    let mut block = Vec::new();
    block.extend_from_slice(b"NAME=");
    block.extend_from_slice(&[b'x'; 86]);
    block.push(0);
    assert_eq!(block.len(), 92);
    let mut keywords = Vec::new();
    assert_eq!(parse_header_keywords(&mut keywords, &block, 92), Ok(1));
    assert_eq!(keywords[0].value.len(), 86);
    let image = main_header(1000, b"SD", &block);
    assert_eq!(parse_header(&image).unwrap().keywords, keywords);
}

#[test]
fn malformed_keyword_blocks_leave_the_list_alone() {
    let cases: [&[u8]; 9] = [
        b"\0",
        b"NAME\0",
        b"=value\0",
        b"A=b\0\0",
        b"A=b\0C",
        b"A=b\0C=",
        b"A=b\0C=d",
        b"A=b",
        b"A",
    ];
    for block in cases {
        let mut keywords = vec![keyword("KEEP", "me")];
        assert_eq!(
            parse_header_keywords(&mut keywords, block, block.len()),
            Err(Error::HeaderKeywordParseError),
            "{:?}",
            block
        );
        assert_eq!(keywords, vec![keyword("KEEP", "me")]);
    }
}

#[test]
fn keywords_must_be_text() {
    let mut keywords = Vec::new();
    assert_eq!(
        parse_header_keywords(&mut keywords, b"A=\xff\0", 4),
        Err(Error::HeaderKeywordParseError)
    );
    assert_eq!(
        parse_header_keywords(&mut keywords, b"\xc3=x\0", 4),
        Err(Error::HeaderKeywordParseError)
    );
    assert!(keywords.is_empty());
    assert_eq!(parse_header_keywords(&mut keywords, "N=\u{e9}\0".as_bytes(), 5), Ok(1));
    assert_eq!(keywords, vec![keyword("N", "\u{e9}")]);
}

#[test]
fn keyword_lengths_beyond_the_region_are_refused() {
    let mut keywords = Vec::new();
    let region = [0u8; 92];
    assert_eq!(
        parse_header_keywords(&mut keywords, &region, 93),
        Err(Error::InvalidHeaderKeywordLength(93))
    );
    assert_eq!(
        parse_header_keywords(&mut keywords, &region, usize::MAX),
        Err(Error::InvalidHeaderKeywordLength(usize::MAX))
    );
    assert!(keywords.is_empty());
}

#[test]
fn parsing_twice_gives_the_same_header() {
    let image = good_header();
    let a = parse_header(&image).unwrap();
    let b = parse_header(&image).unwrap();
    assert_eq!(a.keywords, b.keywords);
    assert_eq!(a.ext_start, b.ext_start);
    assert_eq!(a.data_size, b.data_size);
    assert_eq!(a.type_code, b.type_code);
    assert_eq!(a.data_type, b.data_type);
}

#[test]
fn a_block_written_from_keywords_reads_back() {
    let pairs = [("VER", "1.1"), ("IO", "X-Midas"), ("PATH", "a=b;c=d"), ("NOTE", "")];
    let mut block = Vec::new();
    for (name, value) in pairs {
        block.extend_from_slice(name.as_bytes());
        block.push(b'=');
        block.extend_from_slice(value.as_bytes());
        block.push(0);
    }
    let mut keywords = Vec::new();
    assert_eq!(parse_header_keywords(&mut keywords, &block, block.len()), Ok(4));
    let expected: Vec<HeaderKeyword> = pairs.iter().map(|(n, v)| keyword(n, v)).collect();
    assert_eq!(keywords, expected);
    let image = main_header(1000, b"SD", &block);
    assert_eq!(parse_header(&image).unwrap().keywords, expected);
}
