use undaf::{
    get_char, get_f64, get_f64vec, get_i32, get_string, DAFError, DAFKind, Double, Endian,
    FileLayout, FormatFault,
};

fn text(bytes: &[u8], offset: u64, maxlen: u64) -> String {
    get_string(bytes, offset, maxlen).unwrap()
}

#[test]
fn read_string_round_trip() {
    let bytes = b"  AB\0\0CD\x04EF";
    assert_eq!(bytes.len(), 11);
    assert_eq!(text(bytes, 0, 12), "ABCD");
}

#[test]
fn read_string_looks_at_one_byte_less_than_declared() {
    let bytes = b"ABCDEF";
    assert_eq!(text(bytes, 0, 0), "");
    assert_eq!(text(bytes, 0, 1), "");
    assert_eq!(text(bytes, 0, 2), "A");
    assert_eq!(text(bytes, 0, 6), "ABCDE");
    assert_eq!(text(bytes, 0, 7), "ABCDEF");
    assert_eq!(text(bytes, 2, 3), "CD");
}

#[test]
fn read_string_ends_with_the_source() {
    let bytes = b"ABCDEF";
    assert_eq!(text(bytes, 4, 100), "EF");
    assert_eq!(text(bytes, 6, 100), "");
    assert_eq!(text(bytes, 7, 100), "");
    assert_eq!(text(bytes, u64::MAX, u64::MAX), "");
    assert_eq!(text(bytes, 0, u64::MAX), "ABCDEF");
    assert_eq!(text(&[], 0, 10), "");
}

#[test]
fn read_string_skips_nulls_and_non_ascii() {
    let bytes = [b'A', 0, 0x80, b'B', 0xff, 0, b'C', 0x7f, 0xc3, 0xa9];
    assert_eq!(text(&bytes, 0, 100), "ABC\x7f");
}

#[test]
fn read_string_stops_at_end_of_transmission() {
    assert_eq!(text(b"\x04ABC", 0, 100), "");
    assert_eq!(text(b"AB\x04CD\x04EF", 0, 100), "AB");
    assert_eq!(text(b"AB\x04CD", 3, 100), "CD");
    // the byte that ends the field lies beyond what is looked at
    assert_eq!(text(b"ABCD\x04", 0, 4), "ABC");
}

#[test]
fn read_string_trims_as_str_trim_does() {
    let blanks = b" \t\n\x0b\x0c\rA \t B\r\n\x0c\x0b\t ";
    assert_eq!(text(blanks, 0, 100), "A \t B");
    assert_eq!(text(b"   \t\r\n", 0, 100), "");
    // controls that are no white space stay
    assert_eq!(text(b"\x1c A \x1f", 0, 100), "\x1c A \x1f");
    assert_eq!(text(b"\x08A\x0e", 0, 100), "\x08A\x0e");
    for b in 1u8..128 {
        if b == 4 {
            continue;
        }
        let raw = [b, b'x', b];
        let expected = String::from_utf8(raw.to_vec()).unwrap().trim().to_string();
        assert_eq!(text(&raw, 0, 100), expected);
    }
}

#[test]
fn read_string_trims_after_skipping() {
    // blanks that padding separates from the content are trimmed too
    assert_eq!(text(b" \0 \0AB\0 \x80 ", 0, 100), "AB");
}

#[test]
fn read_i32_in_both_orders() {
    let bytes = [0x78, 0x56, 0x34, 0x12, 0xff, 0xff, 0xff, 0xfe];
    assert_eq!(get_i32(&bytes, 0, &Endian::Little), Ok(0x12345678));
    assert_eq!(get_i32(&bytes, 0, &Endian::Big), Ok(0x78563412));
    assert_eq!(get_i32(&bytes, 4, &Endian::Big), Ok(-2));
    assert_eq!(get_i32(&bytes, 4, &Endian::Little), Ok(-16777217));
    assert_eq!(get_i32(&bytes, 1, &Endian::Little), Ok(i32::from_le_bytes([0x56, 0x34, 0x12, 0xff])));
    assert_eq!(get_i32(&bytes, 3, &Endian::Big), Ok(i32::from_be_bytes([0x12, 0xff, 0xff, 0xff])));
}

#[test]
fn read_i32_extremes() {
    for v in [0, 1, -1, i32::MAX, i32::MIN, 0x7fff_ff00, -0x7fff_ff00, 255, 256, -256] {
        assert_eq!(get_i32(&v.to_le_bytes(), 0, &Endian::Little), Ok(v));
        assert_eq!(get_i32(&v.to_be_bytes(), 0, &Endian::Big), Ok(v));
    }
}

#[test]
fn read_i32_short() {
    let bytes = [1u8, 2, 3, 4, 5];
    assert_eq!(get_i32(&bytes, 1, &Endian::Little), Ok(0x05040302));
    assert_eq!(
        get_i32(&bytes, 2, &Endian::Little),
        Err(DAFError::IO { offset: 2, wanted: 4, len: 5 })
    );
    assert_eq!(
        get_i32(&bytes, u64::MAX, &Endian::Big),
        Err(DAFError::IO { offset: u64::MAX, wanted: 4, len: 5 })
    );
    assert_eq!(get_i32(&[], 0, &Endian::Big), Err(DAFError::IO { offset: 0, wanted: 4, len: 0 }));
}

#[test]
fn read_f64_in_both_orders() {
    for v in [0.0f64, 1.0, -1.5, 2.0, 1e300, -1e-300, f64::MAX, f64::MIN_POSITIVE, 123456.789] {
        let le = v.to_le_bytes();
        let be = v.to_be_bytes();
        assert_eq!(get_f64(&le, 0, &Endian::Little), Ok(Double { bits: v.to_bits() }));
        assert_eq!(get_f64(&be, 0, &Endian::Big), Ok(Double { bits: v.to_bits() }));
        assert_eq!(f64::from_bits(get_f64(&le, 0, &Endian::Little).unwrap().to_bits()), v);
    }
    let bytes = [1u8, 2, 3, 4, 5, 6, 7, 8, 9];
    assert_eq!(get_f64(&bytes, 1, &Endian::Big), Ok(Double::from_bits(0x0203040506070809)));
    assert_eq!(get_f64(&bytes, 1, &Endian::Little), Ok(Double::from_bits(0x0908070605040302)));
}

#[test]
fn read_f64_short() {
    let bytes = [0u8; 9];
    assert!(get_f64(&bytes, 1, &Endian::Little).is_ok());
    assert_eq!(
        get_f64(&bytes, 2, &Endian::Little),
        Err(DAFError::IO { offset: 2, wanted: 8, len: 9 })
    );
}

#[test]
fn mirrored_bytes_read_the_same_in_the_other_order() {
    let bytes = [0x10u8, 0x32, 0x54, 0x76, 0x98, 0xba, 0xdc, 0xfe];
    let mut mirrored = bytes;
    mirrored.reverse();
    assert_eq!(get_f64(&bytes, 0, &Endian::Little), get_f64(&mirrored, 0, &Endian::Big));
    assert_eq!(get_f64(&bytes, 0, &Endian::Big), get_f64(&mirrored, 0, &Endian::Little));
    assert_eq!(get_i32(&bytes, 0, &Endian::Little), get_i32(&mirrored, 4, &Endian::Big));
    assert_eq!(get_i32(&bytes, 4, &Endian::Big), get_i32(&mirrored, 0, &Endian::Little));
}

#[test]
fn read_f64vec_advances_by_four_bytes() {
    let bytes: Vec<u8> = (1u8..=20).collect();
    let at = |offset: usize| {
        let mut chunk = [0u8; 8];
        chunk.copy_from_slice(&bytes[offset..offset + 8]);
        Double::from_bits(u64::from_le_bytes(chunk))
    };
    assert_eq!(get_f64vec(&bytes, 0, 8, &Endian::Little), Ok(vec![at(0), at(4)]));
    assert_eq!(get_f64vec(&bytes, 0, 12, &Endian::Little), Ok(vec![at(0), at(4), at(8)]));
    assert_eq!(get_f64vec(&bytes, 2, 6, &Endian::Little), Ok(vec![at(2)]));
    // a range that is no multiple of four long names one double more
    assert_eq!(get_f64vec(&bytes, 0, 5, &Endian::Little), Ok(vec![at(0), at(4)]));
    assert_eq!(get_f64vec(&bytes, 0, 1, &Endian::Little), Ok(vec![at(0)]));
    assert_eq!(get_f64vec(&bytes, 12, 13, &Endian::Little), Ok(vec![at(12)]));
    assert_eq!(get_f64vec(&bytes, 3, 3, &Endian::Little), Ok(vec![]));
    assert_eq!(get_f64vec(&bytes, 100, 100, &Endian::Little), Ok(vec![]));
    let big = get_f64vec(&bytes, 4, 8, &Endian::Big).unwrap();
    assert_eq!(big, vec![Double::from_bits(0x05060708090a0b0c)]);
}

#[test]
fn read_f64vec_fails_at_the_first_double_that_does_not_fit() {
    let bytes = [0u8; 20];
    assert_eq!(get_f64vec(&bytes, 0, 16, &Endian::Little).map(|v| v.len()), Ok(4));
    assert_eq!(
        get_f64vec(&bytes, 0, 17, &Endian::Little),
        Err(DAFError::IO { offset: 16, wanted: 8, len: 20 })
    );
    assert_eq!(
        get_f64vec(&bytes, 3, 1000, &Endian::Big),
        Err(DAFError::IO { offset: 15, wanted: 8, len: 20 })
    );
    assert_eq!(
        get_f64vec(&bytes, 13, 14, &Endian::Big),
        Err(DAFError::IO { offset: 13, wanted: 8, len: 20 })
    );
    assert_eq!(
        get_f64vec(&bytes, u64::MAX - 2, u64::MAX, &Endian::Big),
        Err(DAFError::IO { offset: u64::MAX - 2, wanted: 8, len: 20 })
    );
}

#[test]
fn read_f64vec_refuses_a_range_that_ends_before_it_starts() {
    let bytes = [0u8; 20];
    assert_eq!(
        get_f64vec(&bytes, 8, 4, &Endian::Little),
        Err(DAFError::Format(FormatFault::DataRange { start: 8, end: 4 }))
    );
    assert_eq!(
        get_f64vec(&bytes, 100, 0, &Endian::Little),
        Err(DAFError::Format(FormatFault::DataRange { start: 100, end: 0 }))
    );
}

#[test]
fn read_char_wants_ascii() {
    let bytes = [b'S', 0x7f, 0x80, 0xff, 0];
    assert_eq!(get_char(&bytes, 0), Ok('S'));
    assert_eq!(get_char(&bytes, 1), Ok('\x7f'));
    assert_eq!(get_char(&bytes, 4), Ok('\0'));
    assert_eq!(get_char(&bytes, 2), Err(DAFError::Encoding { offset: 2, found: 0x80 }));
    assert_eq!(get_char(&bytes, 3), Err(DAFError::Encoding { offset: 3, found: 0xff }));
    assert_eq!(get_char(&bytes, 5), Err(DAFError::IO { offset: 5, wanted: 1, len: 5 }));
}

fn marked(marker: u8) -> Vec<u8> {
    let mut bytes = vec![0u8; 96];
    bytes[88] = marker;
    bytes
}

#[test]
fn byte_order_from_marker() {
    assert_eq!(Endian::from_daf_file(&marked(b'B')), Ok(Endian::Big));
    assert_eq!(Endian::from_daf_file(&marked(b'b')), Ok(Endian::Big));
    assert_eq!(Endian::from_daf_file(&marked(b'L')), Ok(Endian::Little));
    assert_eq!(Endian::from_daf_file(&marked(b'l')), Ok(Endian::Little));
}

#[test]
fn byte_order_of_any_other_marker() {
    for marker in 0u8..=255 {
        let r = Endian::from_daf_file(&marked(marker));
        match marker {
            b'B' | b'b' => assert_eq!(r, Ok(Endian::Big)),
            b'L' | b'l' => assert_eq!(r, Ok(Endian::Little)),
            0..=127 => {
                assert_eq!(r, Err(DAFError::Format(FormatFault::Endianness { found: marker })))
            }
            _ => assert_eq!(r, Err(DAFError::Encoding { offset: 88, found: marker })),
        }
    }
    assert_eq!(
        Endian::from_daf_file(&[b'L'; 88]),
        Err(DAFError::IO { offset: 88, wanted: 1, len: 88 })
    );
}

fn cut(v: f64) -> u64 {
    Double::from_bits(v.to_bits()).to_u64()
}

#[test]
fn double_to_integer_as_the_cast_does() {
    let values = [
        0.0f64,
        -0.0,
        0.5,
        0.999999999,
        1.0,
        1.5,
        1.9999999999999998,
        2.0,
        3.99,
        7.0,
        1024.0,
        1e15,
        4503599627370495.5,
        4503599627370496.0,
        4503599627370497.0,
        9007199254740991.0,
        9007199254740992.0,
        9007199254740994.0,
        9223372036854775808.0,
        18446744073709549568.0,
        18446744073709551616.0,
        1e19,
        1e20,
        1e300,
        f64::MAX,
        f64::MIN_POSITIVE,
        5e-324,
        f64::INFINITY,
        f64::NEG_INFINITY,
        f64::NAN,
        -f64::NAN,
        -1.0,
        -0.5,
        -1e300,
    ];
    for v in values {
        assert_eq!(cut(v), v as u64, "{v}");
    }
    for exponent in 0..80 {
        let v = 1.37f64 * 2f64.powi(exponent);
        assert_eq!(cut(v), v as u64, "{v}");
        let v = 2f64.powi(exponent);
        assert_eq!(cut(v), v as u64, "{v}");
    }
}

#[test]
fn double_to_integer_exact() {
    assert_eq!(cut(5.0), 5);
    assert_eq!(cut(2.75), 2);
    assert_eq!(cut(0.0), 0);
    assert_eq!(cut(1e19), 10_000_000_000_000_000_000);
    assert_eq!(cut(18446744073709549568.0), 18446744073709549568);
    assert_eq!(cut(1e20), u64::MAX);
    assert_eq!(cut(f64::INFINITY), u64::MAX);
    assert_eq!(cut(f64::NAN), 0);
    assert_eq!(cut(-3.0), 0);
    assert_eq!(Double::from_bits(0x7ff0_0000_0000_0001).to_u64(), 0);
    assert_eq!(Double::from_bits(0x4000_0000_0000_0000).to_u64(), 2);
}

#[test]
fn kinds_and_their_labels() {
    assert_eq!(DAFKind::from_marker('S'), DAFKind::SPK);
    assert_eq!(DAFKind::from_marker('C'), DAFKind::CK);
    assert_eq!(DAFKind::from_marker('P'), DAFKind::BPCK);
    assert_eq!(DAFKind::from_marker('s'), DAFKind::Unknown);
    assert_eq!(DAFKind::from_marker('X'), DAFKind::Unknown);
    assert_eq!(DAFKind::SPK.label(), "SPK");
    assert_eq!(DAFKind::CK.label(), "CK");
    assert_eq!(DAFKind::BPCK.label(), "BPCK");
    assert_eq!(DAFKind::Unknown.label(), "unknown");
}

#[test]
fn layout_from_the_file_record() {
    assert_eq!(
        FileLayout::new(2, 6, 2, 2),
        Ok(FileLayout { nd: 2, ni: 6, sum_size: 40, nc: 40, name_record_offset: 1024 })
    );
    assert_eq!(
        FileLayout::new(2, 5, 4, 7),
        Ok(FileLayout { nd: 2, ni: 5, sum_size: 36, nc: 40, name_record_offset: 4096 })
    );
    assert_eq!(
        FileLayout::new(0, 0, 1, 1),
        Ok(FileLayout { nd: 0, ni: 0, sum_size: 0, nc: 0, name_record_offset: 1024 })
    );
    assert_eq!(
        FileLayout::new(i32::MAX, i32::MAX, 1, i32::MAX),
        Ok(FileLayout {
            nd: 2147483647,
            ni: 2147483647,
            sum_size: 25769803764,
            nc: 25769803768,
            name_record_offset: 2199023254528,
        })
    );
}

#[test]
fn layout_refuses_what_is_out_of_range() {
    assert_eq!(
        FileLayout::new(-1, 6, 2, 2),
        Err(DAFError::Format(FormatFault::SummaryShape { nd: -1, ni: 6 }))
    );
    assert_eq!(
        FileLayout::new(2, i32::MIN, 2, 2),
        Err(DAFError::Format(FormatFault::SummaryShape { nd: 2, ni: i32::MIN }))
    );
    assert_eq!(
        FileLayout::new(2, 6, 0, 2),
        Err(DAFError::Format(FormatFault::RecordPointers { fward: 0, bward: 2 }))
    );
    assert_eq!(
        FileLayout::new(2, 6, -3, -2),
        Err(DAFError::Format(FormatFault::RecordPointers { fward: -3, bward: -2 }))
    );
    assert_eq!(
        FileLayout::new(2, 6, 3, 2),
        Err(DAFError::Format(FormatFault::RecordPointers { fward: 3, bward: 2 }))
    );
    // the counts are looked at first
    assert_eq!(
        FileLayout::new(-1, -1, 0, 0),
        Err(DAFError::Format(FormatFault::SummaryShape { nd: -1, ni: -1 }))
    );
}

#[test]
fn errors_describe_themselves() {
    assert_eq!(DAFError::IO { offset: 1, wanted: 2, len: 3 }.message(), "Short read");
    assert_eq!(DAFError::Encoding { offset: 1, found: 200 }.message(), "Non-ASCII value read");
    assert_eq!(
        DAFError::Format(FormatFault::Endianness { found: b'X' }).message(),
        "Unable to determine DAF file endian-ness"
    );
    assert_eq!(
        DAFError::Format(FormatFault::FileType { found: b'X' }).message(),
        "Unsupported DAF file type"
    );
    assert_eq!(
        DAFError::Format(FormatFault::DataRange { start: 2, end: 1 }).message(),
        "Data range ends before it starts"
    );
    assert_eq!(
        DAFError::Format(FormatFault::SummaryShape { nd: -1, ni: 0 }).message(),
        "Negative summary size"
    );
    assert_eq!(
        DAFError::Format(FormatFault::RecordPointers { fward: 0, bward: 0 }).message(),
        "Invalid summary record pointers"
    );
    assert_eq!(
        DAFError::Format(FormatFault::RecordNumber { record: u64::MAX }).message(),
        "Record number out of range"
    );
    assert_eq!(
        DAFError::Format(FormatFault::RecordChain { record: 2 }).message(),
        "Summary record chain does not end"
    );
    assert_eq!(
        DAFError::Format(FormatFault::SummaryAddress { record: 2, index: 3 }).message(),
        "Summary address out of range"
    );
}
