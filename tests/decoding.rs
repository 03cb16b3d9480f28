use coriolis::decode::{
    decode_be_u16_from_bytes, decode_be_u32_from_bytes, decode_f32_reg, decode_generic_reg,
    decode_permittivity_from_bytes, decode_raw_counts_from_bytes, decode_raw_counts_from_u16,
    decode_reading, decode_water_content_from_bytes, decode_water_content_from_u16,
    find_text_end, words_to_be_bytes, DecodeError, Reading,
};
use coriolis::regmap::{MapEntry, TypeTag};
use coriolis::units::{RawCounts, Register, VolumetricWaterContent};

#[test]
fn decode_water_content() {
    // Valid range
    assert_eq!(
        0.0,
        decode_water_content_from_bytes(&[0x00, 0x00]).unwrap().0.hundredths as f64 / 100.0
    );
    assert_eq!(
        34.4,
        decode_water_content_from_bytes(&[0x0D, 0x70]).unwrap().0.hundredths as f64 / 100.0
    );
    assert_eq!(
        100.0,
        decode_water_content_from_bytes(&[0x27, 0x10]).unwrap().0.hundredths as f64 / 100.0
    );
    // Invalid range
    assert!(decode_water_content_from_bytes(&[0x27, 0x11]).is_err());
    assert!(decode_water_content_from_bytes(&[0xFF, 0xFF]).is_err());
}

#[test]
fn decode_permittivity() {
    // Valid range
    assert_eq!(
        1.0,
        decode_permittivity_from_bytes(&[0x00, 0x64]).unwrap().0.hundredths as f64 / 100.0
    );
    assert_eq!(
        15.2,
        decode_permittivity_from_bytes(&[0x05, 0xF0]).unwrap().0.hundredths as f64 / 100.0
    );
    // Invalid range
    assert!(decode_permittivity_from_bytes(&[0x00, 0x00]).is_err());
    assert!(decode_permittivity_from_bytes(&[0x00, 0x63]).is_err());
}

#[test]
fn water_content_bounds() {
    for i in 0..=100u16 {
        let vwc = VolumetricWaterContent::from_hundredths(i * 100);
        assert!(vwc.is_valid());
    }
    assert!(!VolumetricWaterContent::from_hundredths(10001).is_valid());
    assert_eq!(
        decode_water_content_from_u16(10001),
        Err(DecodeError::InvalidData)
    );
    assert_eq!(
        decode_water_content_from_bytes(&[0x27]).unwrap_err(),
        DecodeError::InsufficientInput
    );
}

#[test]
fn float_words_are_swapped() {
    let f = decode_f32_reg(vec![0x4049, 0x0FDB]).unwrap();
    assert_eq!(f.to_bits(), 0x0FDB_4049);
    let expected = f32::from_be_bytes([0x0F, 0xDB, 0x40, 0x49]);
    assert_eq!(f32::from_bits(f.to_bits()), expected);
    // The same words give the same value on every call.
    let again = decode_f32_reg(vec![0x4049, 0x0FDB]).unwrap();
    assert_eq!(again, f);
}

#[test]
fn float_known_sample() {
    // 3.14159274 is 0x40490FDB; on the wire its words come swapped.
    let f = decode_f32_reg(vec![0x0FDB, 0x4049]).unwrap();
    assert_eq!(f32::from_bits(f.to_bits()), std::f32::consts::PI);
}

#[test]
fn float_needs_exactly_two_words() {
    assert_eq!(decode_f32_reg(vec![0x4049]), Err(DecodeError::InsufficientInput));
    assert_eq!(decode_f32_reg(vec![]), Err(DecodeError::InsufficientInput));
    assert_eq!(decode_f32_reg(vec![1, 2, 3]), Err(DecodeError::InvalidInput));
}

fn words_of(bytes: &[u8]) -> Vec<u16> {
    bytes.chunks(2).map(|c| u16::from_be_bytes([c[0], c[1]])).collect()
}

#[test]
fn ascii_stops_at_marker() {
    let words = words_of(b"Hello\0LWorld");
    let g = decode_generic_reg(words).unwrap();
    assert_eq!(g.as_str(), "Hello");
}

#[test]
fn ascii_without_marker_keeps_all() {
    let words = words_of(b"Sensor01");
    let g = decode_generic_reg(words).unwrap();
    assert_eq!(g.as_str(), "Sensor01");
}

#[test]
fn ascii_marker_needs_both_characters() {
    let words = words_of(b"ab\0\0cL");
    let g = decode_generic_reg(words).unwrap();
    assert_eq!(g.as_str(), "ab\0\0cL");
}

#[test]
fn ascii_rejects_invalid_utf8() {
    assert_eq!(
        decode_generic_reg(vec![0xFFFE, 0x4142]),
        Err(DecodeError::InvalidData)
    );
    // Invalid bytes after the marker still fail the whole reading.
    let mut words = words_of(b"ok\0L");
    words.push(0xC0C0);
    assert_eq!(decode_generic_reg(words), Err(DecodeError::InvalidData));
}

#[test]
fn ascii_multibyte_text() {
    let words = words_of("h\u{e9}x\0L".as_bytes());
    assert_eq!(decode_generic_reg(words).unwrap().as_str(), "h\u{e9}x");
}

#[test]
fn ascii_empty() {
    assert_eq!(decode_generic_reg(vec![]).unwrap().as_str(), "");
}

#[test]
fn words_split_high_byte_first() {
    assert_eq!(words_to_be_bytes(&vec![0x1234, 0xABCD]), vec![0x12, 0x34, 0xAB, 0xCD]);
    assert_eq!(find_text_end(&vec![b'a', 0, b'L', 0, b'L']), 1);
    assert_eq!(find_text_end(&vec![b'a', 0]), 2);
}

#[test]
fn big_endian_prefixes() {
    let (v, rest) = decode_be_u16_from_bytes(&[0x12, 0x34, 0x56]).unwrap();
    assert_eq!(v, 0x1234);
    assert_eq!(rest, &[0x56]);
    assert_eq!(decode_be_u16_from_bytes(&[0x12]).unwrap_err(), DecodeError::InsufficientInput);
    let (v, rest) = decode_be_u32_from_bytes(&[0x12, 0x34, 0x56, 0x78]).unwrap();
    assert_eq!(v, 0x1234_5678);
    assert!(rest.is_empty());
    assert_eq!(
        decode_be_u32_from_bytes(&[1, 2, 3]).unwrap_err(),
        DecodeError::InsufficientInput
    );
}

#[test]
fn raw_counts() {
    assert_eq!(decode_raw_counts_from_u16(0xBEEF), Ok(RawCounts(0xBEEF)));
    let (c, rest) = decode_raw_counts_from_bytes(&[0x01, 0x02]).unwrap();
    assert_eq!(u16::from(c), 0x0102);
    assert!(rest.is_empty());
    assert_eq!(RawCounts::from(7u16), RawCounts(7));
}

#[test]
fn reading_by_type() {
    let u = MapEntry { tag: TypeTag::UnsignedInteger, count: 2 };
    assert_eq!(
        decode_reading(u, vec![1, 2, 3]),
        Ok(Reading::Words(Register::from_byte(vec![1, 2])))
    );
    assert_eq!(decode_reading(u, vec![1]), Err(DecodeError::InsufficientInput));

    let f = MapEntry { tag: TypeTag::Float, count: 2 };
    match decode_reading(f, vec![0x0FDB, 0x4049]) {
        Ok(Reading::Float(v)) => assert_eq!(v.to_bits(), 0x4049_0FDB),
        other => panic!("unexpected {:?}", other),
    }
    let f3 = MapEntry { tag: TypeTag::Float, count: 3 };
    assert_eq!(decode_reading(f3, vec![1, 2, 3]), Err(DecodeError::InvalidInput));

    let r = MapEntry { tag: TypeTag::RawWord, count: 1 };
    assert_eq!(decode_reading(r, vec![9, 8]), Ok(Reading::Raw(RawCounts(9))));
    let r2 = MapEntry { tag: TypeTag::RawWord, count: 2 };
    assert_eq!(decode_reading(r2, vec![9, 8]), Err(DecodeError::InvalidInput));

    let a = MapEntry { tag: TypeTag::Ascii, count: 2 };
    match decode_reading(a, words_of(b"OK\0LZZ")) {
        Ok(Reading::Text(g)) => assert_eq!(g.as_str(), "OK"),
        other => panic!("unexpected {:?}", other),
    }
    assert_eq!(decode_reading(a, vec![0xFFFF, 0xFFFF]), Err(DecodeError::InvalidData));
}

#[test]
fn error_descriptions() {
    assert_eq!(DecodeError::InsufficientInput.describe(), "Insufficient input");
    assert_eq!(DecodeError::InvalidInput.describe(), "Invalid input");
    assert_eq!(DecodeError::InvalidData.describe(), "Invalid data");
}
