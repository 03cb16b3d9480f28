//! The register map: for each register address, the type of value it holds
//! and how many words that value spans.

use vstd::prelude::*;
use vstd::utf8::{encode_scalar, encode_utf8};
use crate::decode::lemma_encode_char;
use std::collections::HashMap;

verus! {

broadcast use vstd::std_specs::hash::group_hash_axioms;

/// How the words of a register are decoded.
#[derive(Clone, Copy, Debug, PartialEq, Eq, Structural)]
pub enum TypeTag {
    Ascii,
    UnsignedInteger,
    Float,
    RawWord,
}

/// What the map records for one address.
#[derive(Clone, Copy, Debug, PartialEq, Eq, Structural)]
pub struct MapEntry {
    pub tag: TypeTag,
    pub count: u16,
}

/// Errors in the register map or in its use.
#[derive(Clone, Copy, Debug, PartialEq, Eq, Structural)]
pub enum ConfigError {
    /// An address that the map does not hold.
    MissingMapEntry,
    /// An address or a code that cannot be read.
    MalformedMapEntry,
}

/// The type that a code's first character selects.
pub open spec fn tag_of_letter(c: char) -> TypeTag {
    if c == 'A' {
        TypeTag::Ascii
    } else if c == 'U' {
        TypeTag::UnsignedInteger
    } else if c == 'F' {
        TypeTag::Float
    } else {
        TypeTag::RawWord
    }
}

pub open spec fn is_digit(b: u8) -> bool {
    0x30u8 <= b <= 0x39u8
}

pub open spec fn all_digits(s: Seq<u8>) -> bool {
    forall|i: int| 0 <= i < s.len() ==> is_digit(#[trigger] s[i])
}

/// The number that a run of decimal digits spells.
pub open spec fn decimal_value(s: Seq<u8>) -> int
    decreases s.len(),
{
    if s.len() == 0 {
        0
    } else {
        decimal_value(s.drop_last()) * 10 + (s.last() - 0x30u8)
    }
}

/// A non-empty run of decimal digits whose value fits in 16 bits.
pub open spec fn decimal_u16(s: Seq<u8>) -> Option<u16> {
    if s.len() > 0 && all_digits(s) && decimal_value(s) <= 0xffff {
        Some(decimal_value(s) as u16)
    } else {
        None
    }
}

/// A decimal digit character, `'0'` to `'9'`.
pub open spec fn is_digit_char(c: char) -> bool {
    0x30 <= (c as u32) <= 0x39
}

pub open spec fn all_digit_chars(t: Seq<char>) -> bool {
    forall|i: int| 0 <= i < t.len() ==> is_digit_char(#[trigger] t[i])
}

/// The number that a run of decimal digit characters spells.
pub open spec fn char_decimal_value(t: Seq<char>) -> int
    decreases t.len(),
{
    if t.len() == 0 {
        0
    } else {
        char_decimal_value(t.drop_last()) * 10 + (t.last() as u32 - 0x30)
    }
}

/// A non-empty run of decimal digit characters whose value fits in 16 bits.
pub open spec fn decimal_of(t: Seq<char>) -> Option<u16> {
    if t.len() > 0 && all_digit_chars(t) && char_decimal_value(t) <= 0xffff {
        Some(char_decimal_value(t) as u16)
    } else {
        None
    }
}

/// The entry that a code gives: a blank code is one unsigned word; otherwise
/// the first character selects the type (`A`, `U`, `F`, any other character
/// a raw word) and the remaining characters are a decimal word count of at
/// least one.
pub open spec fn code_entry(code: Seq<char>) -> Option<MapEntry> {
    if code.len() == 0 {
        Some(MapEntry { tag: TypeTag::UnsignedInteger, count: 1 })
    } else {
        match decimal_of(code.drop_first()) {
            Some(n) => if n >= 1 {
                Some(MapEntry { tag: tag_of_letter(code[0]), count: n })
            } else {
                None
            },
            None => None,
        }
    }
}

/// The map that rows of (address, code) build, row by row, a later row
/// replacing an earlier one with the same address; rows with a blank
/// address are passed over. `None` where any other row cannot be read.
pub open spec fn built_map(rows: Seq<(Seq<char>, Seq<char>)>) -> Option<Map<u16, MapEntry>>
    decreases rows.len(),
{
    if rows.len() == 0 {
        Some(Map::empty())
    } else {
        match built_map(rows.drop_last()) {
            None => None,
            Some(m) => {
                let a = rows.last().0;
                let c = rows.last().1;
                if a.len() == 0 {
                    Some(m)
                } else {
                    match (decimal_of(a), code_entry(c)) {
                        (Some(addr), Some(e)) => Some(m.insert(addr, e)),
                        _ => None,
                    }
                }
            },
        }
    }
}

/// The rows as character sequences.
pub open spec fn rows_view(rows: Seq<(String, String)>) -> Seq<(Seq<char>, Seq<char>)> {
    rows.map_values(|r: (String, String)| (r.0@, r.1@))
}

/// Every entry spans at least one word.
pub open spec fn entries_valid(m: Map<u16, MapEntry>) -> bool {
    forall|a: u16| #[trigger] m.contains_key(a) ==> m[a].count >= 1
}

/// Reads a non-empty run of decimal digits that fits in 16 bits.
pub fn parse_decimal_u16(s: &[u8]) -> (r: Option<u16>)
    ensures
        r == decimal_u16(s@),
{
    if s.len() == 0 {
        return None;
    }
    let mut acc: u32 = 0;
    let mut over = false;
    let mut i: usize = 0;
    while i < s.len()
        invariant
            i <= s@.len(),
            all_digits(s@.subrange(0, i as int)),
            !over ==> acc as int == decimal_value(s@.subrange(0, i as int)) && acc <= 0xffff,
            over ==> decimal_value(s@.subrange(0, i as int)) > 0xffff,
        decreases s@.len() - i,
    {
        let d = s[i];
        if d < 0x30 || d > 0x39 {
            assert(!all_digits(s@)) by {
                assert(!is_digit(s@[i as int]));
            }
            return None;
        }
        proof {
            let next = s@.subrange(0, i + 1);
            assert(next.drop_last() =~= s@.subrange(0, i as int));
            assert(all_digits(next)) by {
                assert forall|j: int| 0 <= j < next.len() implies is_digit(#[trigger] next[j]) by {
                    if j < i {
                        assert(next[j] == s@.subrange(0, i as int)[j]);
                    }
                }
            }
        }
        if !over {
            let v: u32 = acc * 10 + (d - 0x30) as u32;
            if v > 0xffff {
                over = true;
            } else {
                acc = v;
            }
        }
        i = i + 1;
    }
    assert(s@.subrange(0, i as int) =~= s@);
    if over {
        None
    } else {
        Some(acc as u16)
    }
}

/// Characters that are all decimal digits are encoded one byte each, each
/// byte the character's value.
proof fn lemma_digit_chars_encoding(t: Seq<char>)
    requires
        all_digit_chars(t),
    ensures
        encode_utf8(t).len() == t.len(),
        forall|i: int| 0 <= i < t.len() ==> #[trigger] encode_utf8(t)[i] as u32 == t[i] as u32,
    decreases t.len(),
{
    if t.len() > 0 {
        let rest = t.drop_first();
        assert forall|i: int| 0 <= i < rest.len() implies is_digit_char(#[trigger] rest[i]) by {
            assert(rest[i] == t[i + 1]);
        }
        lemma_digit_chars_encoding(rest);
        lemma_encode_char(t[0]);
        assert(is_digit_char(t[0]));
        let e = encode_utf8(t);
        assert(e == encode_scalar(t[0] as u32) + encode_utf8(rest));
        assert forall|i: int| 0 <= i < t.len() implies #[trigger] e[i] as u32 == t[i] as u32 by {
            if i > 0 {
                assert(e[i] == encode_utf8(rest)[i - 1]);
                assert(t[i] == rest[i - 1]);
            }
        }
    }
}

/// An encoding made of decimal digit bytes alone encodes decimal digit
/// characters alone.
proof fn lemma_encoding_digits_back(t: Seq<char>)
    requires
        all_digits(encode_utf8(t)),
    ensures
        all_digit_chars(t),
    decreases t.len(),
{
    if t.len() > 0 {
        let rest = t.drop_first();
        let e0 = encode_scalar(t[0] as u32);
        let r = encode_utf8(rest);
        let e = encode_utf8(t);
        assert(e == e0 + r);
        lemma_encode_char(t[0]);
        assert(is_digit(e[0]));
        assert(e[0] == e0[0]);
        assert((t[0] as u32) <= 0x7f);
        assert forall|j: int| 0 <= j < r.len() implies is_digit(#[trigger] r[j]) by {
            assert(r[j] == e[j + e0.len()]);
        }
        lemma_encoding_digits_back(rest);
        assert forall|i: int| 0 <= i < t.len() implies is_digit_char(#[trigger] t[i]) by {
            if i > 0 {
                assert(t[i] == rest[i - 1]);
            }
        }
    }
}

/// Digits of equal value, position by position, spell the same number.
proof fn lemma_decimal_pointwise(b: Seq<u8>, t: Seq<char>)
    requires
        b.len() == t.len(),
        forall|i: int| 0 <= i < t.len() ==> #[trigger] b[i] as u32 == t[i] as u32,
    ensures
        decimal_value(b) == char_decimal_value(t),
        all_digits(b) == all_digit_chars(t),
    decreases t.len(),
{
    if t.len() > 0 {
        let bd = b.drop_last();
        let td = t.drop_last();
        assert forall|i: int| 0 <= i < td.len() implies #[trigger] bd[i] as u32 == td[i] as u32 by {
            assert(bd[i] == b[i] && td[i] == t[i]);
        }
        lemma_decimal_pointwise(bd, td);
        assert(b.last() as u32 == t.last() as u32);
    }
    if all_digits(b) {
        assert forall|i: int| 0 <= i < t.len() implies is_digit_char(#[trigger] t[i]) by {
            assert(is_digit(b[i]));
        }
    }
    if all_digit_chars(t) {
        assert forall|i: int| 0 <= i < b.len() implies is_digit(#[trigger] b[i]) by {
            assert(is_digit_char(t[i]));
        }
    }
}

/// Reading the UTF-8 encoding of `t` as decimal digits reads the digits of
/// `t`; and only an empty text has an empty encoding.
proof fn lemma_decimal_of_encoding(t: Seq<char>)
    ensures
        decimal_u16(encode_utf8(t)) == decimal_of(t),
        (encode_utf8(t).len() == 0) == (t.len() == 0),
{
    if t.len() > 0 {
        lemma_encode_char(t[0]);
        assert(encode_utf8(t) == encode_scalar(t[0] as u32) + encode_utf8(t.drop_first()));
    }
    if all_digit_chars(t) {
        lemma_digit_chars_encoding(t);
        lemma_decimal_pointwise(encode_utf8(t), t);
    } else if all_digits(encode_utf8(t)) {
        lemma_encoding_digits_back(t);
    }
}

/// Reads a code such as `F2`, `U1` or `A24` into the entry it stands for.
pub fn parse_code(code: &str) -> (r: Result<MapEntry, ConfigError>)
    ensures
        r == match code_entry(code@) {
            Some(e) => Ok::<MapEntry, ConfigError>(e),
            None => Err::<MapEntry, ConfigError>(ConfigError::MalformedMapEntry),
        },
{
    let b = code.as_bytes();
    proof {
        lemma_decimal_of_encoding(code@);
    }
    if b.len() == 0 {
        return Ok(MapEntry { tag: TypeTag::UnsignedInteger, count: 1 });
    }
    // The leading byte gives the length of the first character's encoding.
    let lead = b[0];
    let width: usize = if lead < 0x80 {
        1
    } else if lead < 0xe0 {
        2
    } else if lead < 0xf0 {
        3
    } else {
        4
    };
    let ghost c = code@[0];
    let ghost rest = code@.drop_first();
    proof {
        lemma_encode_char(c);
        lemma_decimal_of_encoding(rest);
        assert(b@ == encode_scalar(c as u32) + encode_utf8(rest));
        assert(lead == encode_scalar(c as u32)[0]);
        assert(width == encode_scalar(c as u32).len());
    }
    let tag = if lead == 0x41 {
        TypeTag::Ascii
    } else if lead == 0x55 {
        TypeTag::UnsignedInteger
    } else if lead == 0x46 {
        TypeTag::Float
    } else {
        TypeTag::RawWord
    };
    proof {
        if (c as u32) <= 0x7f {
            assert(lead as u32 == c as u32);
        }
        assert(tag == tag_of_letter(c));
    }
    let digits = vstd::slice::slice_subrange(b, width, b.len());
    assert(digits@ =~= encode_utf8(rest));
    match parse_decimal_u16(digits) {
        Some(n) => if n >= 1 {
            Ok(MapEntry { tag, count: n })
        } else {
            Err(ConfigError::MalformedMapEntry)
        },
        None => Err(ConfigError::MalformedMapEntry),
    }
}

/// An immutable map from register address to entry, each entry at least
/// one word long.
pub struct RegisterMap {
    entries: HashMap<u16, MapEntry>,
}

impl View for RegisterMap {
    type V = Map<u16, MapEntry>;

    closed spec fn view(&self) -> Map<u16, MapEntry> {
        self.entries@
    }
}

impl RegisterMap {
    pub open spec fn wf(&self) -> bool {
        entries_valid(self@)
    }

    /// The entry of `address`; an address the map lacks is a configuration
    /// error.
    pub fn lookup(&self, address: u16) -> (r: Result<MapEntry, ConfigError>)
        ensures
            self@.contains_key(address) ==> r == Ok::<MapEntry, ConfigError>(self@[address]),
            !self@.contains_key(address) ==> r == Err::<MapEntry, ConfigError>(
                ConfigError::MissingMapEntry,
            ),
    {
        match self.entries.get(&address) {
            Some(e) => Ok(*e),
            None => Err(ConfigError::MissingMapEntry),
        }
    }

    /// Number of addresses in the map.
    pub fn len(&self) -> (r: usize)
        ensures
            r == self@.len(),
    {
        self.entries.len()
    }
}

/// Builds the map from rows of (address, code), in order: a later row
/// replaces an earlier one with the same address, and rows with a blank
/// address are passed over. Any other address or code that cannot be read
/// fails the whole build.
pub fn build_register_map(rows: &Vec<(String, String)>) -> (r: Result<RegisterMap, ConfigError>)
    ensures
        match built_map(rows_view(rows@)) {
            Some(m) => r matches Ok(map) && map@ == m && map.wf(),
            None => r == Err::<RegisterMap, ConfigError>(ConfigError::MalformedMapEntry),
        },
{
    let mut entries: HashMap<u16, MapEntry> = HashMap::new();
    let mut i: usize = 0;
    while i < rows.len()
        invariant
            i <= rows@.len(),
            built_map(rows_view(rows@.subrange(0, i as int))) == Some(entries@),
            entries_valid(entries@),
        decreases rows@.len() - i,
    {
        proof {
            let pre = rows_view(rows@.subrange(0, i as int));
            let next = rows_view(rows@.subrange(0, i + 1));
            assert(next.drop_last() =~= pre);
            assert(next.last() == (rows@[i as int].0@, rows@[i as int].1@));
        }
        let a = rows[i].0.as_str().as_bytes();
        let c = rows[i].1.as_str();
        proof {
            lemma_decimal_of_encoding(rows@[i as int].0@);
        }
        if a.len() != 0 {
            let addr = match parse_decimal_u16(a) {
                Some(v) => v,
                None => {
                    proof { lemma_built_map_fails_on(rows_view(rows@), i as int + 1); }
                    return Err(ConfigError::MalformedMapEntry);
                },
            };
            let e = match parse_code(c) {
                Ok(e) => e,
                Err(err) => {
                    proof { lemma_built_map_fails_on(rows_view(rows@), i as int + 1); }
                    return Err(err);
                },
            };
            entries.insert(addr, e);
        }
        i = i + 1;
    }
    assert(rows@.subrange(0, i as int) =~= rows@);
    Ok(RegisterMap { entries })
}

/// Once a prefix of the rows fails to build, so do all the rows.
proof fn lemma_built_map_fails_on(rows: Seq<(Seq<char>, Seq<char>)>, n: int)
    requires
        0 <= n <= rows.len(),
        built_map(rows.subrange(0, n)) is None,
    ensures
        built_map(rows) is None,
    decreases rows.len() - n,
{
    if n < rows.len() {
        assert(rows.subrange(0, n + 1).drop_last() =~= rows.subrange(0, n));
        lemma_built_map_fails_on(rows, n + 1);
    } else {
        assert(rows.subrange(0, n) =~= rows);
    }
}

/// Round trip: after the map is built from rows, each address that a row
/// names maps to the entry that its code encodes, where no later row names
/// the same address.
pub proof fn lemma_build_then_lookup(rows: Seq<(Seq<char>, Seq<char>)>, i: int)
    requires
        built_map(rows) is Some,
        0 <= i < rows.len(),
        rows[i].0.len() > 0,
        forall|j: int| i < j < rows.len() ==> decimal_of(#[trigger] rows[j].0) != decimal_of(rows[i].0),
    ensures
        decimal_of(rows[i].0) is Some,
        code_entry(rows[i].1) is Some,
        built_map(rows)->Some_0.contains_key(decimal_of(rows[i].0)->Some_0),
        built_map(rows)->Some_0[decimal_of(rows[i].0)->Some_0] == code_entry(rows[i].1)->Some_0,
    decreases rows.len(),
{
    let pre = rows.drop_last();
    assert(built_map(pre) is Some);
    if i < rows.len() - 1 {
        assert forall|j: int| i < j < pre.len() implies decimal_of(#[trigger] pre[j].0) != decimal_of(
            pre[i].0,
        ) by {
            assert(pre[j] == rows[j]);
        }
        assert(pre[i] == rows[i]);
        lemma_build_then_lookup(pre, i);
        assert(decimal_of(rows.last().0) != decimal_of(rows[i].0));
    }
}

} // verus!
