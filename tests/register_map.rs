use coriolis::regmap::{build_register_map, parse_code, parse_decimal_u16, ConfigError, MapEntry, TypeTag};

fn rows(table: &[(&str, &str)]) -> Vec<(String, String)> {
    table.iter().map(|(a, c)| (a.to_string(), c.to_string())).collect()
}

#[test]
fn codes() {
    assert_eq!(parse_code("F2"), Ok(MapEntry { tag: TypeTag::Float, count: 2 }));
    assert_eq!(parse_code("U1"), Ok(MapEntry { tag: TypeTag::UnsignedInteger, count: 1 }));
    assert_eq!(parse_code("A24"), Ok(MapEntry { tag: TypeTag::Ascii, count: 24 }));
    assert_eq!(parse_code("X3"), Ok(MapEntry { tag: TypeTag::RawWord, count: 3 }));
    assert_eq!(parse_code(""), Ok(MapEntry { tag: TypeTag::UnsignedInteger, count: 1 }));
}

#[test]
fn malformed_codes() {
    assert_eq!(parse_code("F"), Err(ConfigError::MalformedMapEntry));
    assert_eq!(parse_code("U0"), Err(ConfigError::MalformedMapEntry));
    assert_eq!(parse_code("U2x"), Err(ConfigError::MalformedMapEntry));
    assert_eq!(parse_code("A70000"), Err(ConfigError::MalformedMapEntry));
    assert_eq!(parse_code("U65535"), Ok(MapEntry { tag: TypeTag::UnsignedInteger, count: 65535 }));
}

#[test]
fn decimal_numbers() {
    assert_eq!(parse_decimal_u16(b"0"), Some(0));
    assert_eq!(parse_decimal_u16(b"382"), Some(382));
    assert_eq!(parse_decimal_u16(b"65535"), Some(65535));
    assert_eq!(parse_decimal_u16(b"65536"), None);
    assert_eq!(parse_decimal_u16(b"999999"), None);
    assert_eq!(parse_decimal_u16(b""), None);
    assert_eq!(parse_decimal_u16(b"-1"), None);
}

#[test]
fn build_then_lookup_round_trip() {
    let table = [("382", "F2"), ("103", "A24"), ("1199", "U1"), ("3", "R1"), ("5", "")];
    let map = build_register_map(&rows(&table)).unwrap();
    assert_eq!(map.len(), 5);
    for (addr, code) in table.iter() {
        let address: u16 = addr.parse().unwrap();
        assert_eq!(map.lookup(address), parse_code(code));
    }
    assert_eq!(map.lookup(5), Ok(MapEntry { tag: TypeTag::UnsignedInteger, count: 1 }));
}

#[test]
fn later_row_wins() {
    let map = build_register_map(&rows(&[("10", "U1"), ("10", "F2")])).unwrap();
    assert_eq!(map.len(), 1);
    assert_eq!(map.lookup(10), Ok(MapEntry { tag: TypeTag::Float, count: 2 }));
}

#[test]
fn blank_address_rows_are_passed_over() {
    let map = build_register_map(&rows(&[("", "U1"), ("7", "A4")])).unwrap();
    assert_eq!(map.len(), 1);
    assert_eq!(map.lookup(7), Ok(MapEntry { tag: TypeTag::Ascii, count: 4 }));
}

#[test]
fn malformed_rows_fail_the_build() {
    assert_eq!(
        build_register_map(&rows(&[("7", "A4"), ("8", "F")])).err(),
        Some(ConfigError::MalformedMapEntry)
    );
    assert_eq!(
        build_register_map(&rows(&[("x7", "A4")])).err(),
        Some(ConfigError::MalformedMapEntry)
    );
    assert_eq!(
        build_register_map(&rows(&[("70000", "U1")])).err(),
        Some(ConfigError::MalformedMapEntry)
    );
}

#[test]
fn missing_address() {
    let map = build_register_map(&rows(&[("1", "U1")])).unwrap();
    assert_eq!(map.lookup(2), Err(ConfigError::MissingMapEntry));
    let empty = build_register_map(&Vec::new()).unwrap();
    assert_eq!(empty.len(), 0);
    assert_eq!(empty.lookup(1), Err(ConfigError::MissingMapEntry));
}

#[test]
fn non_ascii_type_letter_is_raw_word() {
    assert_eq!(parse_code("\u{e9}2"), Ok(MapEntry { tag: TypeTag::RawWord, count: 2 }));
    assert_eq!(parse_code("\u{4e2d}3"), Ok(MapEntry { tag: TypeTag::RawWord, count: 3 }));
    assert_eq!(parse_code("\u{1f600}4"), Ok(MapEntry { tag: TypeTag::RawWord, count: 4 }));
    assert_eq!(parse_code("\u{e9}"), Err(ConfigError::MalformedMapEntry));
    // Digits outside ASCII are not a word count.
    assert_eq!(parse_code("U\u{661}"), Err(ConfigError::MalformedMapEntry));
    assert_eq!(parse_code("U1\u{e9}"), Err(ConfigError::MalformedMapEntry));
}

#[test]
fn non_ascii_codes_build() {
    let map = build_register_map(&rows(&[("1", "\u{e9}2"), ("2", "A3")])).unwrap();
    assert_eq!(map.len(), 2);
    assert_eq!(map.lookup(1), Ok(MapEntry { tag: TypeTag::RawWord, count: 2 }));
    assert_eq!(map.lookup(2), Ok(MapEntry { tag: TypeTag::Ascii, count: 3 }));
    assert_eq!(
        build_register_map(&rows(&[("\u{661}", "U1")])).err(),
        Some(ConfigError::MalformedMapEntry)
    );
}
