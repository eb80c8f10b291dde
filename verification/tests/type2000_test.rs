use std::str::from_utf8;

use bluefile::{
    parse_ext_keyword, read_data, read_ext_header, read_header, read_type2000_adjunct_header,
    DataType, DataValue, Endianness, Error, ExtEvent, ExtHeaderIter, ExtKeyword, ExtKeywordValue,
    ExtValue, Float32, Float64, Format, HeaderKeyword, Rank, Type2000Reader, TypeCode,
};

/// One record of an extended header, padded to a multiple of eight bytes.
fn record(tag: &str, format: u8, value: &[u8]) -> Vec<u8> {
    let used = 8 + value.len() + tag.len();
    let total = (used + 7) / 8 * 8;
    let mut r = Vec::new();
    r.extend_from_slice(&(total as i32).to_le_bytes());
    r.extend_from_slice(&((total - value.len()) as i16).to_le_bytes());
    r.push(tag.len() as u8);
    r.push(format);
    r.extend_from_slice(value);
    r.extend_from_slice(tag.as_bytes());
    r.resize(total, 0);
    r
}

/// The five records of the extended header of the raster image.
fn penny_records() -> Vec<u8> {
    let mut e = Vec::new();
    e.extend_from_slice(&record("COMMENT", b'A', b"Demo data for XRTSURFACE/STAY"));
    e.extend_from_slice(&record("COMMENT1", b'A', b"A raster of 128 frames of 128 doubles each, of a coin"));
    e.extend_from_slice(&record("FRAMES", b'L', &128i32.to_le_bytes()));
    e.extend_from_slice(&record("COMMENT2", b'A', 
        b"To draw the raster as a surface, run the command that the last comment holds here",
    ));
    e.extend_from_slice(&record(
        "COMMENT3",
        b'A',
        b"XRTSURF/STAY/NOLAB/XC=5,PENNY,1.0,255.0,4,128,16,0,10,2",
    ));
    e
}

/// The image of a little-endian file of the family 2000: main header,
/// adjunct header, 128 frames of 128 doubles, and the extended header in the
/// block after the data.
fn penny_image() -> Vec<u8> {
    let keywords = b"VER=1.1\0IO=X-Midas\0";
    let records = penny_records();
    let mut f = vec![0u8; 512];
    f[0..4].copy_from_slice(b"BLUE");
    f[4..8].copy_from_slice(b"EEEI");
    f[8..12].copy_from_slice(b"EEEI");
    f[24..28].copy_from_slice(&257i32.to_le_bytes());
    f[28..32].copy_from_slice(&(records.len() as i32).to_le_bytes());
    f[32..40].copy_from_slice(&512.0f64.to_le_bytes());
    f[40..48].copy_from_slice(&131072.0f64.to_le_bytes());
    f[48..52].copy_from_slice(&2000i32.to_le_bytes());
    f[52..54].copy_from_slice(b"SD");
    f[160..164].copy_from_slice(&(keywords.len() as i32).to_le_bytes());
    f[164..164 + keywords.len()].copy_from_slice(keywords);
    f[256..264].copy_from_slice(&0.0f64.to_le_bytes());
    f[264..272].copy_from_slice(&1.0f64.to_le_bytes());
    f[272..276].copy_from_slice(&0i32.to_le_bytes());
    f[276..280].copy_from_slice(&128i32.to_le_bytes());
    f[280..288].copy_from_slice(&0.0f64.to_le_bytes());
    f[288..296].copy_from_slice(&1.0f64.to_le_bytes());
    f[296..300].copy_from_slice(&0i32.to_le_bytes());
    for i in 0..128 * 128 {
        f.extend_from_slice(&((i % 255) as f64 + 1.0).to_le_bytes());
    }
    assert_eq!(f.len(), 257 * 512);
    f.extend_from_slice(&records);
    f.resize(258 * 512, 0);
    f
}

/// Drives a cursor over the bytes of a file as a reader of the file would,
/// and hands back the keywords and the first malformed record's error.
fn drive(it: &mut ExtHeaderIter, file: &[u8]) -> (Vec<ExtKeyword>, Option<Error>) {
    let mut position = it.offset();
    let mut keywords = Vec::new();
    loop {
        let wanted = it.wanted();
        if wanted == 0 {
            return (keywords, None);
        }
        let end = position.saturating_add(wanted).min(file.len());
        let chunk = if position <= file.len() { &file[position..end] } else { &file[0..0] };
        position = end;
        match it.next(chunk) {
            ExtEvent::Pending => {},
            ExtEvent::Keyword(k) => keywords.push(k),
            ExtEvent::End => return (keywords, None),
            ExtEvent::Malformed(e) => return (keywords, Some(e)),
        }
    }
}

#[test]
fn read_type2000_test() {
    let file = penny_image();
    let header = read_header(&file[..256]).unwrap();

    assert_eq!(header.header_endianness, Endianness::Little);
    assert_eq!(header.data_endianness, Endianness::Little);
    assert_eq!(header.ext_start, 257 * 512);
    assert_eq!(header.ext_size, 320);
    assert_eq!(f64::from_bits(header.data_start.to_bits()), 512.0);
    assert_eq!(f64::from_bits(header.data_size.to_bits()), 131072.0);
    assert_eq!(header.type_code, TypeCode::Type2000(2000));
    assert_eq!(header.data_type, DataType { rank: Rank::Scalar, format: Format::Double });
    assert_eq!(f64::from_bits(header.timecode.to_bits()), 0.0);
    assert_eq!(header.keywords[0], HeaderKeyword { name: "VER".to_string(), value: "1.1".to_string() });
    assert_eq!(header.keywords[1], HeaderKeyword { name: "IO".to_string(), value: "X-Midas".to_string() });

    let adjunct = read_type2000_adjunct_header(&file[256..512], &header).unwrap();
    assert_eq!(f64::from_bits(adjunct.xstart.to_bits()), 0.0);
    assert_eq!(f64::from_bits(adjunct.xdelta.to_bits()), 1.0);
    assert_eq!(adjunct.xunits, 0);
    assert_eq!(adjunct.subsize, 128);
    assert_eq!(f64::from_bits(adjunct.ystart.to_bits()), 0.0);
    assert_eq!(f64::from_bits(adjunct.ydelta.to_bits()), 1.0);
    assert_eq!(adjunct.yunits, 0);

    let ext_keywords = read_ext_header(&file, &header).unwrap();
    assert_eq!(ext_keywords.len(), 5);

    assert_eq!(ext_keywords[0].tag, "COMMENT".to_string());
    assert_eq!(ext_keywords[0].value.format, 'A');
    assert_eq!(from_utf8(&ext_keywords[0].value.raw_value).unwrap(), "Demo data for XRTSURFACE/STAY".to_string());

    assert_eq!(ext_keywords[4].tag, "COMMENT3".to_string());
    assert_eq!(ext_keywords[4].value.format, 'A');
    assert_eq!(from_utf8(&ext_keywords[4].value.raw_value).unwrap(), "XRTSURF/STAY/NOLAB/XC=5,PENNY,1.0,255.0,4,128,16,0,10,2".to_string());
}

#[test]
fn records_keep_their_lengths_and_order() {
    let file = penny_image();
    let header = read_header(&file[..256]).unwrap();
    let keywords = read_ext_header(&file, &header).unwrap();
    let tags: Vec<&str> = keywords.iter().map(|k| k.tag.as_str()).collect();
    assert_eq!(tags, ["COMMENT", "COMMENT1", "FRAMES", "COMMENT2", "COMMENT3"]);
    let lengths: Vec<usize> = keywords.iter().map(|k| k.length).collect();
    assert_eq!(lengths, [48, 72, 24, 104, 72]);
    assert_eq!(lengths.iter().sum::<usize>(), 320);
    assert_eq!(keywords[2].value.format, 'L');
    assert_eq!(keywords[2].value.raw_value, 128i32.to_le_bytes());
    assert_eq!(keywords[2].value.endianness, Endianness::Little);
}

#[test]
fn the_cursor_yields_what_the_reading_yields() {
    let file = penny_image();
    let reader = Type2000Reader::new(&file[..256], &file[256..512]).unwrap();
    assert_eq!(reader.get_ext_start(), 257 * 512);
    assert_eq!(reader.get_ext_size(), 320);
    let mut it = reader.get_ext_iter();
    assert_eq!(it.offset(), 257 * 512);
    assert_eq!(it.size(), 320);
    let (keywords, error) = drive(&mut it, &file);
    assert_eq!(error, None);
    assert_eq!(it.consumed(), 320);
    assert_eq!(keywords, read_ext_header(&file, reader.get_header()).unwrap());
    let mut again = reader.get_ext_iter();
    assert_eq!(drive(&mut again, &file).0, keywords);
}

#[test]
fn the_cursor_step_by_step() {
    let mut it = ExtHeaderIter::new(0, 24, Endianness::Little);
    let r = record("FRAMES", b'L', &128i32.to_le_bytes());
    assert_eq!(r.len(), 24);
    assert_eq!(it.wanted(), 4);
    assert_eq!(it.next(&r[..4]), ExtEvent::Pending);
    assert_eq!(it.consumed(), 4);
    assert_eq!(it.wanted(), 20);
    match it.next(&r[4..]) {
        ExtEvent::Keyword(k) => {
            assert_eq!(k.length, 24);
            assert_eq!(k.tag, "FRAMES");
            assert_eq!(k.value.raw_value, [128, 0, 0, 0]);
        },
        other => panic!("{:?}", other),
    }
    assert_eq!(it.consumed(), 24);
    assert_eq!(it.wanted(), 0);
    assert_eq!(it.next(&r[..4]), ExtEvent::End);
    assert_eq!(it.consumed(), 24);
}

#[test]
fn a_short_read_ends_the_sequence() {
    let mut file = penny_image();
    file.truncate(257 * 512 + 48 + 72 + 10);
    let header = read_header(&file[..256]).unwrap();
    let keywords = read_ext_header(&file, &header).unwrap();
    assert_eq!(keywords.len(), 2);
    let mut it = ExtHeaderIter::new(header.ext_start, header.ext_size, header.header_endianness);
    let (driven, error) = drive(&mut it, &file);
    assert_eq!(error, None);
    assert_eq!(driven, keywords);
    assert_eq!(it.consumed(), 48 + 72 + 4);
    assert_eq!(it.wanted(), 0);
    assert!(it.consumed() < it.size());

    file.truncate(257 * 512 + 48 + 2);
    assert_eq!(read_ext_header(&file, &header).unwrap().len(), 1);
    let mut it = ExtHeaderIter::new(header.ext_start, header.ext_size, header.header_endianness);
    assert_eq!(drive(&mut it, &file).0.len(), 1);
    assert_eq!(it.consumed(), 48);

    file.truncate(1000);
    assert_eq!(read_ext_header(&file, &header).unwrap().len(), 0);
}

#[test]
fn the_size_ends_the_sequence() {
    let file = penny_image();
    let mut header = read_header(&file[..256]).unwrap();
    header.ext_size = 120;
    assert_eq!(read_ext_header(&file, &header).unwrap().len(), 2);
    header.ext_size = 121;
    assert_eq!(read_ext_header(&file, &header).unwrap().len(), 3);
    header.ext_size = 1;
    assert_eq!(read_ext_header(&file, &header).unwrap().len(), 1);
    header.ext_size = 0;
    assert_eq!(read_ext_header(&file, &header).unwrap().len(), 0);
    let mut it = ExtHeaderIter::new(header.ext_start, 0, Endianness::Little);
    assert_eq!(it.wanted(), 0);
    assert_eq!(it.next(&[]), ExtEvent::End);
}

#[test]
fn record_lengths_below_eight_are_malformed() {
    for length in [7i32, 4, 3, 0, -1, i32::MIN] {
        let mut file = penny_image();
        let at = 257 * 512 + 48;
        file[at..at + 4].copy_from_slice(&length.to_le_bytes());
        let header = read_header(&file[..256]).unwrap();
        assert_eq!(
            read_ext_header(&file, &header),
            Err(Error::ExtHeaderKeywordLengthParseError)
        );
        let mut it = ExtHeaderIter::new(header.ext_start, header.ext_size, Endianness::Little);
        let (keywords, error) = drive(&mut it, &file);
        assert_eq!(keywords.len(), 1);
        assert_eq!(error, Some(Error::ExtHeaderKeywordLengthParseError));
        assert_eq!(it.consumed(), 52);
        assert_eq!(it.wanted(), 0);
    }
}

#[test]
fn record_bodies_must_fit_their_lengths() {
    let le = Endianness::Little;
    let r = record("TAG", b'A', b"value");
    assert_eq!(r.len(), 16);
    let keyword = parse_ext_keyword(&r[4..], 16, le).unwrap();
    assert_eq!(keyword.tag, "TAG");
    assert_eq!(keyword.value.raw_value, b"value");
    assert_eq!(keyword.value.format, 'A');
    assert_eq!(keyword.length, 16);

    let bad = Err(Error::ExtHeaderKeywordReadError);
    assert_eq!(parse_ext_keyword(&r[4..7], 16, le), bad);
    assert_eq!(parse_ext_keyword(&[], 16, le), bad);
    let mut negative = r.clone();
    negative[4..6].copy_from_slice(&(-1i16).to_le_bytes());
    assert_eq!(parse_ext_keyword(&negative[4..], 16, le), bad);
    let mut too_much = r.clone();
    too_much[4..6].copy_from_slice(&17i16.to_le_bytes());
    assert_eq!(parse_ext_keyword(&too_much[4..], 16, le), bad);
    let mut long_value = r.clone();
    long_value[4..6].copy_from_slice(&3i16.to_le_bytes());
    assert_eq!(parse_ext_keyword(&long_value[4..], 16, le), bad);
    let mut long_tag = r.clone();
    long_tag[6] = 4;
    assert_eq!(parse_ext_keyword(&long_tag[4..], 16, le), bad);
    let mut no_text = r.clone();
    no_text[13] = 0xff;
    assert_eq!(parse_ext_keyword(&no_text[4..], 16, le), bad);
    assert_eq!(parse_ext_keyword(&r[4..], 64, le), bad);
}

#[test]
fn a_record_may_be_all_tag_or_all_value() {
    let le = Endianness::Little;
    let r = record("", b'B', &[1, 2, 3, 4, 5, 6, 7, 8]);
    let k = parse_ext_keyword(&r[4..], r.len(), le).unwrap();
    assert_eq!(k.tag, "");
    assert_eq!(k.value.raw_value, [1, 2, 3, 4, 5, 6, 7, 8]);
    let r = record("ONLYATAG", b'A', b"");
    let k = parse_ext_keyword(&r[4..], r.len(), le).unwrap();
    assert_eq!(k.tag, "ONLYATAG");
    assert!(k.value.raw_value.is_empty());
    let r = [8, 0, 0, 0, 8, 0, 0, b'A'];
    let k = parse_ext_keyword(&r[4..], 8, le).unwrap();
    assert_eq!((k.tag.as_str(), k.value.raw_value.len(), k.length), ("", 0, 8));
}

#[test]
fn big_endian_records() {
    let mut r = Vec::new();
    r.extend_from_slice(&16i32.to_be_bytes());
    r.extend_from_slice(&14i16.to_be_bytes());
    r.push(2);
    r.push(b'I');
    r.extend_from_slice(&[0x12, 0x34]);
    r.extend_from_slice(b"AB");
    r.resize(16, 0);
    let k = parse_ext_keyword(&r[4..], 16, Endianness::Big).unwrap();
    assert_eq!(k.tag, "AB");
    assert_eq!(k.value.raw_value, [0x12, 0x34]);
    assert_eq!(k.value.endianness, Endianness::Big);
    assert_eq!(k.value.format, 'I');
    let mut it = ExtHeaderIter::new(0, 16, Endianness::Big);
    assert_eq!(drive(&mut it, &r).0, vec![k]);
}

#[test]
fn a_malformed_body_stops_the_reading() {
    let mut file = penny_image();
    let at = 257 * 512 + 48 + 72;
    file[at + 6] = 200;
    let header = read_header(&file[..256]).unwrap();
    assert_eq!(read_ext_header(&file, &header), Err(Error::ExtHeaderKeywordReadError));
    let mut it = ExtHeaderIter::new(header.ext_start, header.ext_size, Endianness::Little);
    let (keywords, error) = drive(&mut it, &file);
    assert_eq!(keywords.len(), 2);
    assert_eq!(error, Some(Error::ExtHeaderKeywordReadError));
    assert_eq!(it.consumed(), 48 + 72 + 24);
    assert_eq!(it.wanted(), 0);
}

#[test]
fn raster_data_is_frames_of_doubles() {
    let file = penny_image();
    let reader = Type2000Reader::new(&file[..256], &file[256..512]).unwrap();
    assert_eq!(reader.get_adj_header().subsize, 128);
    assert_eq!(reader.get_data_start(), 512);
    assert_eq!(reader.get_data_size(), 131072);
    let values = read_data(&file, reader.get_header()).unwrap();
    assert_eq!(values.len(), 128 * 128);
    let mut it = reader.get_data_iter();
    assert_eq!(it.adjunct(), reader.get_adj_header());
    let mut position = it.offset();
    let mut count = 0;
    while it.wanted() != 0 {
        let wanted = it.wanted();
        assert_eq!(wanted, 8);
        match it.next(&file[position..position + wanted]) {
            Some(Ok(DataValue::SD(x))) => {
                assert_eq!(f64::from_bits(x.to_bits()), (count % 255) as f64 + 1.0);
                assert_eq!(values[count], DataValue::SD(x));
            },
            other => panic!("{:?}", other),
        }
        position += wanted;
        count += 1;
    }
    assert_eq!(count, 16384);
    assert_eq!(it.consumed(), 131072);
}

#[test]
fn a_raster_reader_wants_its_own_family() {
    let mut file = penny_image();
    file[48..52].copy_from_slice(&1000i32.to_le_bytes());
    assert!(matches!(
        Type2000Reader::new(&file[..256], &file[256..512]),
        Err(Error::TypeCodeMismatchError)
    ));
    file[48..52].copy_from_slice(&2999i32.to_le_bytes());
    let reader = Type2000Reader::new(&file[..256], &file[256..512]).unwrap();
    assert_eq!(reader.get_header().type_code, TypeCode::Type2000(2999));
    assert!(matches!(
        Type2000Reader::new(&file[..256], &file[256..260]),
        Err(Error::NotEnoughAdjunctHeaderBytes(4))
    ));
    assert!(matches!(
        Type2000Reader::new(&file[..10], &file[256..512]),
        Err(Error::NotEnoughHeaderBytes(10))
    ));
    file[0] = 0;
    assert!(matches!(
        Type2000Reader::new(&file[..256], &file[256..512]),
        Err(Error::NotBlueFileError)
    ));
}

fn value(format: char, endianness: Endianness, raw: &[u8]) -> ExtKeywordValue {
    ExtKeywordValue { format, endianness, raw_value: raw.to_vec() }
}

#[test]
fn values_are_read_as_their_format_says() {
    let le = Endianness::Little;
    let be = Endianness::Big;
    assert_eq!(value('A', le, b"some \"text\"").decode(), Ok(ExtValue::Text("some \"text\"".to_string())));
    assert_eq!(value('S', le, b"").decode(), Ok(ExtValue::Text(String::new())));
    assert_eq!(value('Z', be, "\u{e9}".as_bytes()).decode(), Ok(ExtValue::Text("\u{e9}".to_string())));
    assert_eq!(value('B', le, &[127]).decode(), Ok(ExtValue::Byte(127)));
    assert_eq!(value('O', le, &[200]).decode(), Ok(ExtValue::Offset(200)));
    assert_eq!(value('I', le, &[0xfe, 0xff]).decode(), Ok(ExtValue::Int(-2)));
    assert_eq!(value('I', be, &[0x01, 0x02]).decode(), Ok(ExtValue::Int(0x0102)));
    assert_eq!(value('L', le, &128i32.to_le_bytes()).decode(), Ok(ExtValue::Long(128)));
    assert_eq!(value('L', be, &(-128i32).to_be_bytes()).decode(), Ok(ExtValue::Long(-128)));
    assert_eq!(value('X', le, &(1i64 << 40).to_le_bytes()).decode(), Ok(ExtValue::LongLong(1 << 40)));
    assert_eq!(
        value('F', le, &0.5f32.to_le_bytes()).decode(),
        Ok(ExtValue::Float(Float32::from_bits(0.5f32.to_bits())))
    );
    assert_eq!(
        value('D', be, &(-0.5f64).to_be_bytes()).decode(),
        Ok(ExtValue::Double(Float64::from_bits((-0.5f64).to_bits())))
    );
    assert_eq!(value('Q', le, &[1, 2, 3]).decode(), Ok(ExtValue::Unknown));
    assert_eq!(value('a', le, b"text").decode(), Ok(ExtValue::Unknown));
}

#[test]
fn numbers_take_the_front_of_the_value() {
    let le = Endianness::Little;
    assert_eq!(value('B', le, &[1, 2, 3]).decode(), Ok(ExtValue::Byte(1)));
    assert_eq!(value('I', le, &[1, 0, 9, 9]).decode(), Ok(ExtValue::Int(1)));
    assert_eq!(value('L', le, &[1, 0, 0, 0, 9, 9, 9, 9]).decode(), Ok(ExtValue::Long(1)));
}

#[test]
fn values_that_are_not_of_their_format() {
    let le = Endianness::Little;
    let bad = Err(Error::ByteConversionError);
    assert_eq!(value('A', le, &[0xff]).decode(), bad);
    assert_eq!(value('B', le, &[]).decode(), bad);
    assert_eq!(value('B', le, &[128]).decode(), bad);
    assert_eq!(value('O', le, &[]).decode(), bad);
    assert_eq!(value('I', le, &[1]).decode(), bad);
    assert_eq!(value('L', le, &[1, 2, 3]).decode(), bad);
    assert_eq!(value('X', le, &[0; 7]).decode(), bad);
    assert_eq!(value('F', le, &[0; 3]).decode(), bad);
    assert_eq!(value('D', le, &[0; 7]).decode(), bad);
}

#[test]
fn the_keywords_of_the_raster_decode() {
    let file = penny_image();
    let header = read_header(&file[..256]).unwrap();
    let keywords = read_ext_header(&file, &header).unwrap();
    assert_eq!(
        keywords[0].value.decode(),
        Ok(ExtValue::Text("Demo data for XRTSURFACE/STAY".to_string()))
    );
    assert_eq!(keywords[2].value.decode(), Ok(ExtValue::Long(128)));
}

#[test]
fn a_size_beyond_the_file_ends_with_the_file() {
    let mut file = penny_image();
    file[28..32].copy_from_slice(&(-1i32).to_le_bytes());
    file.truncate(257 * 512 + 320);
    let header = read_header(&file[..256]).unwrap();
    assert_eq!(header.ext_size, usize::MAX);
    assert_eq!(read_ext_header(&file, &header).unwrap().len(), 5);
    let mut it = ExtHeaderIter::new(header.ext_start, header.ext_size, header.header_endianness);
    let (keywords, error) = drive(&mut it, &file);
    assert_eq!((keywords.len(), error), (5, None));
    assert_eq!(it.consumed(), 320);
    assert_eq!(it.wanted(), 0);
}

#[test]
fn a_start_beyond_the_file_gives_no_keywords() {
    let mut file = penny_image();
    file[24..28].copy_from_slice(&(-1i32).to_le_bytes());
    let header = read_header(&file[..256]).unwrap();
    assert_eq!(header.ext_start, usize::MAX - 511);
    assert_eq!(read_ext_header(&file, &header).unwrap().len(), 0);
    let mut it = ExtHeaderIter::new(header.ext_start, header.ext_size, header.header_endianness);
    let (keywords, error) = drive(&mut it, &file);
    assert_eq!((keywords.len(), error), (0, None));
    assert_eq!(it.consumed(), 0);
}
