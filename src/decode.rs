//! Pure decoders from register words (or big-endian bytes) to values.

use vstd::prelude::*;
use vstd::utf8::*;
use crate::units::{
    Float, Generic, MAX_WATER_CONTENT_HUNDREDTHS, MIN_PERMITTIVITY_HUNDREDTHS, RawCounts,
    Register, RelativePermittivity, VolumetricWaterContent,
};
use crate::regmap::{MapEntry, TypeTag};

verus! {

broadcast use vstd::utf8::group_utf8_lib;

/// Errors raised while turning register words into values.
#[derive(Clone, Copy, Debug, PartialEq, Eq, Structural)]
pub enum DecodeError {
    /// Fewer words or bytes than the value needs.
    InsufficientInput,
    /// The input has a shape the value cannot be read from.
    InvalidInput,
    /// The input was read, but what it holds is not a valid value.
    InvalidData,
}

impl DecodeError {
    /// A short human-readable description.
    pub fn describe(&self) -> (r: &'static str)
        ensures
            *self == DecodeError::InsufficientInput ==> r@ == "Insufficient input"@,
            *self == DecodeError::InvalidInput ==> r@ == "Invalid input"@,
            *self == DecodeError::InvalidData ==> r@ == "Invalid data"@,
    {
        match self {
            DecodeError::InsufficientInput => "Insufficient input",
            DecodeError::InvalidInput => "Invalid input",
            DecodeError::InvalidData => "Invalid data",
        }
    }
}

pub type DecodeResult<T> = Result<T, DecodeError>;

/// High byte of a word.
pub open spec fn hi(w: u16) -> u8 {
    (w / 256) as u8
}

/// Low byte of a word.
pub open spec fn lo(w: u16) -> u8 {
    (w % 256) as u8
}

/// The word whose big-endian bytes are `b0, b1`.
pub open spec fn be_u16(b0: u8, b1: u8) -> u16 {
    (b0 as int * 256 + b1 as int) as u16
}

/// The double word whose big-endian bytes are `b0, b1, b2, b3`.
pub open spec fn be_u32(b0: u8, b1: u8, b2: u8, b3: u8) -> u32 {
    (b0 as int * 0x1000000 + b1 as int * 0x10000 + b2 as int * 0x100 + b3 as int) as u32
}

/// Each word as two bytes, high byte first, in word order.
pub open spec fn be_bytes_of_words(w: Seq<u16>) -> Seq<u8> {
    Seq::new(2 * w.len(), |i: int| if i % 2 == 0 { hi(w[i / 2]) } else { lo(w[i / 2]) })
}

/// The bytes of a two-word float as the sensor sends them, put back in the
/// order (3, 4, 1, 2): the second word first, each word high byte first.
pub open spec fn float_wire_bytes(w0: u16, w1: u16) -> Seq<u8> {
    seq![hi(w1), lo(w1), hi(w0), lo(w0)]
}

/// Whether `s` holds `x` at `i` and `y` right after it.
pub open spec fn pair_at<A>(s: Seq<A>, i: int, x: A, y: A) -> bool {
    0 <= i && i + 1 < s.len() && s[i] == x && s[i + 1] == y
}

/// Index of the first pair `x, y` in `s` at or after `from`, or the length
/// of `s` where there is none.
pub open spec fn first_pair_from<A>(s: Seq<A>, x: A, y: A, from: int) -> int
    decreases s.len() - from,
{
    if from < 0 || from + 1 >= s.len() {
        s.len() as int
    } else if pair_at(s, from, x, y) {
        from
    } else {
        first_pair_from(s, x, y, from + 1)
    }
}

/// Length of the text held in the bytes `b`: everything before the first
/// end-of-text marker, the bytes `0x00, 'L'`.
pub open spec fn text_end(b: Seq<u8>) -> int {
    first_pair_from(b, 0u8, 0x4cu8, 0)
}

/// The text `t` up to the first `"\0L"`, or all of it where there is none.
pub open spec fn text_before_marker(t: Seq<char>) -> Seq<char> {
    t.take(first_pair_from(t, '\0', 'L', 0))
}

/// Relies on `String::from_utf8`: it accepts exactly the valid UTF-8 byte
/// sequences and yields the characters they encode.
#[verifier::external_body]
fn string_from_utf8(bytes: Vec<u8>) -> (r: Option<String>)
    ensures
        r is Some <==> valid_utf8(bytes@),
        r matches Some(s) ==> s@ == decode_utf8(bytes@),
{
    String::from_utf8(bytes).ok()
}

/// The first pair lies within the sequence, or is its end.
proof fn lemma_first_pair_bounds<A>(s: Seq<A>, x: A, y: A, from: int)
    requires
        0 <= from,
    ensures
        first_pair_from(s, x, y, from) == s.len() || (pair_at(s, first_pair_from(s, x, y, from), x, y)
            && from <= first_pair_from(s, x, y, from)),
        first_pair_from(s, x, y, from) <= s.len(),
    decreases s.len() - from,
{
    if from + 1 < s.len() && !pair_at(s, from, x, y) {
        lemma_first_pair_bounds(s, x, y, from + 1);
    }
}

/// Searching past a prefix `p` is searching `r` and adding the prefix's length.
proof fn lemma_first_pair_shift<A>(p: Seq<A>, r: Seq<A>, x: A, y: A, j: int)
    requires
        p.len() <= j,
    ensures
        first_pair_from(p + r, x, y, j) == p.len() + first_pair_from(r, x, y, j - p.len()),
    decreases (p + r).len() - j,
{
    let s = p + r;
    if j + 1 < s.len() {
        assert(pair_at(s, j, x, y) == pair_at(r, j - p.len(), x, y));
        if !pair_at(s, j, x, y) {
            lemma_first_pair_shift(p, r, x, y, j + 1);
        }
    }
}

/// Positions without a pair are passed over.
proof fn lemma_first_pair_skip<A>(s: Seq<A>, x: A, y: A, j: int, k: int)
    requires
        0 <= j <= k <= s.len(),
        forall|i: int| j <= i < k ==> !pair_at(s, i, x, y),
    ensures
        first_pair_from(s, x, y, j) == first_pair_from(s, x, y, k),
    decreases k - j,
{
    if j < k {
        lemma_first_pair_skip(s, x, y, j + 1, k);
        if j + 1 >= s.len() {
            assert(k == s.len());
        }
    }
}

proof fn lemma_high_bytes(v: u8)
    ensures
        (0x80u8 | v) >= 0x80u8,
        (0xC0u8 | v) >= 0x80u8,
        (0xE0u8 | v) >= 0x80u8,
        (0xF0u8 | v) >= 0x80u8,
{
    assert((0x80u8 | v) >= 0x80u8) by (bit_vector);
    assert((0xC0u8 | v) >= 0x80u8) by (bit_vector);
    assert((0xE0u8 | v) >= 0x80u8) by (bit_vector);
    assert((0xF0u8 | v) >= 0x80u8) by (bit_vector);
}

/// An ASCII character is encoded as its own byte; any other as two bytes or
/// more, each at least `0x80`.
/// The leading byte also gives the length of the encoding: below `0x80` one
/// byte, up to `0xdf` two, up to `0xef` three, and four above.
pub(crate) proof fn lemma_encode_char(c: char)
    ensures
        encode_scalar(c as u32).len() >= 1,
        (c as u32) <= 0x7f ==> encode_scalar(c as u32) == seq![(c as u32) as u8],
        (c as u32) > 0x7f ==> encode_scalar(c as u32).len() >= 2 && forall|i: int|
            0 <= i < encode_scalar(c as u32).len() ==> #[trigger] encode_scalar(c as u32)[i] >= 0x80u8,
        encode_scalar(c as u32).len() == 2 ==> 0xc0u8 <= encode_scalar(c as u32)[0] <= 0xdfu8,
        encode_scalar(c as u32).len() == 3 ==> 0xe0u8 <= encode_scalar(c as u32)[0] <= 0xefu8,
        encode_scalar(c as u32).len() == 4 ==> 0xf0u8 <= encode_scalar(c as u32)[0],
        encode_scalar(c as u32).len() <= 4,
        c == '\0' <==> (c as u32) == 0,
        c == 'L' <==> (c as u32) == 0x4c,
        c == 'A' <==> (c as u32) == 0x41,
        c == 'U' <==> (c as u32) == 0x55,
        c == 'F' <==> (c as u32) == 0x46,
{
    let u = c as u32;
    char_is_scalar(c);
    char_u32_cast(c, u);
    if u <= 0x7f {
        assert((u & 0x7F) as u8 == u as u8) by (bit_vector)
            requires
                u <= 0x7f,
        ;
    } else {
        let v2 = ((u >> 6) & 0x1F) as u8;
        let v3 = ((u >> 12) & 0x0F) as u8;
        assert(((u >> 6) & 0x1F) <= 0x1f) by (bit_vector);
        assert(((u >> 12) & 0x0F) <= 0x0f) by (bit_vector);
        assert(0xc0u8 <= (0xC0u8 | v2) <= 0xdfu8) by (bit_vector)
            requires
                v2 <= 0x1f,
        ;
        assert(0xe0u8 <= (0xE0u8 | v3) <= 0xefu8) by (bit_vector)
            requires
                v3 <= 0x0f,
        ;
        let v4 = ((u >> 18) & 0x7) as u8;
        assert(0xf0u8 <= (0xF0u8 | v4)) by (bit_vector);
        lemma_high_bytes(((u >> 6) & 0x1F) as u8);
        lemma_high_bytes(((u >> 12) & 0x0F) as u8);
        lemma_high_bytes(((u >> 18) & 0x7) as u8);
        lemma_high_bytes((u & 0x3F) as u8);
        lemma_high_bytes(((u >> 6) & 0x3F) as u8);
        lemma_high_bytes(((u >> 12) & 0x3F) as u8);
    }
}

/// Cutting the encoding of `t` before its first byte marker encodes `t` cut
/// before its first character marker.
proof fn lemma_cut_encoding(t: Seq<char>)
    ensures
        encode_utf8(t).take(text_end(encode_utf8(t))) == encode_utf8(text_before_marker(t)),
    decreases t.len(),
{
    let b = encode_utf8(t);
    lemma_first_pair_bounds(b, 0u8, 0x4cu8, 0);
    lemma_first_pair_bounds(t, '\0', 'L', 0);
    if t.len() == 0 {
        assert(b.take(0) =~= seq![]);
        assert(text_before_marker(t) =~= seq![]);
        return ;
    }
    let c = t[0];
    let rest = t.drop_first();
    let e0 = encode_scalar(c as u32);
    let r = encode_utf8(rest);
    assert(b == e0 + r);
    lemma_encode_char(c);
    if rest.len() > 0 {
        lemma_encode_char(rest[0]);
        assert(r == encode_scalar(rest[0] as u32) + encode_utf8(rest.drop_first()));
    }
    if c == '\0' && rest.len() > 0 && rest[0] == 'L' {
        assert(pair_at(t, 0, '\0', 'L'));
        assert(pair_at(b, 0, 0u8, 0x4cu8));
        assert(b.take(0) =~= seq![]);
        assert(t.take(0) =~= seq![]);
        return ;
    }
    assert(!pair_at(t, 0, '\0', 'L'));
    assert forall|i: int| 0 <= i < e0.len() implies !pair_at(b, i, 0u8, 0x4cu8) by {
        if pair_at(b, i, 0u8, 0x4cu8) {
            assert(b[i] == e0[i]);
            if (c as u32) > 0x7f {
                assert(e0[i] >= 0x80u8);
            } else {
                assert(i == 0 && c == '\0');
                assert(rest.len() > 0);
                assert(b[1] == r[0]);
            }
        }
    }
    lemma_first_pair_skip(b, 0u8, 0x4cu8, 0, e0.len() as int);
    lemma_first_pair_shift(e0, r, 0u8, 0x4cu8, e0.len() as int);
    assert(t =~= seq![c] + rest);
    lemma_first_pair_skip(t, '\0', 'L', 0, 1);
    lemma_first_pair_shift(seq![c], rest, '\0', 'L', 1);
    lemma_cut_encoding(rest);
    let k = first_pair_from(r, 0u8, 0x4cu8, 0);
    let kc = first_pair_from(rest, '\0', 'L', 0);
    lemma_first_pair_bounds(r, 0u8, 0x4cu8, 0);
    lemma_first_pair_bounds(rest, '\0', 'L', 0);
    assert(b.take(e0.len() + k) =~= e0 + r.take(k));
    let cut = t.take(1 + kc);
    assert(cut.drop_first() =~= rest.take(kc));
    assert(cut[0] == c);
    assert(encode_utf8(cut) == e0 + encode_utf8(rest.take(kc)));
}

/// Reads one big-endian word from the front of `input`.
pub fn decode_be_u16_from_bytes(input: &[u8]) -> (r: DecodeResult<(u16, &[u8])>)
    ensures
        input@.len() < 2 ==> r == Err::<(u16, &[u8]), DecodeError>(DecodeError::InsufficientInput),
        input@.len() >= 2 ==> (r matches Ok((v, rest)) && v == be_u16(input@[0], input@[1])
            && rest@ == input@.subrange(2, input@.len() as int)),
{
    if input.len() < 2 {
        return Err(DecodeError::InsufficientInput);
    }
    let b0 = input[0] as u16;
    let b1 = input[1] as u16;
    assert(b0 * 256 <= 255 * 256) by (nonlinear_arith)
        requires
            b0 <= 255,
    ;
    let v: u16 = b0 * 256 + b1;
    let rest = vstd::slice::slice_subrange(input, 2, input.len());
    Ok((v, rest))
}

/// Reads one big-endian double word from the front of `input`.
pub fn decode_be_u32_from_bytes(input: &[u8]) -> (r: DecodeResult<(u32, &[u8])>)
    ensures
        input@.len() < 4 ==> r == Err::<(u32, &[u8]), DecodeError>(DecodeError::InsufficientInput),
        input@.len() >= 4 ==> (r matches Ok((v, rest)) && v == be_u32(
            input@[0],
            input@[1],
            input@[2],
            input@[3],
        ) && rest@ == input@.subrange(4, input@.len() as int)),
{
    if input.len() < 4 {
        return Err(DecodeError::InsufficientInput);
    }
    let b0 = input[0] as u32;
    let b1 = input[1] as u32;
    let b2 = input[2] as u32;
    let b3 = input[3] as u32;
    assert(b0 * 0x1000000 + b1 * 0x10000 + b2 * 0x100 + b3 <= 0xffffffff) by (nonlinear_arith)
        requires
            b0 <= 255,
            b1 <= 255,
            b2 <= 255,
            b3 <= 255,
    ;
    let v: u32 = b0 * 0x1000000 + b1 * 0x10000 + b2 * 0x100 + b3;
    let rest = vstd::slice::slice_subrange(input, 4, input.len());
    Ok((v, rest))
}

/// The words, each as two bytes with the high byte first.
pub fn words_to_be_bytes(words: &Vec<u16>) -> (r: Vec<u8>)
    ensures
        r@ == be_bytes_of_words(words@),
{
    let mut out: Vec<u8> = Vec::new();
    let mut i: usize = 0;
    while i < words.len()
        invariant
            i <= words@.len(),
            out@ == be_bytes_of_words(words@.subrange(0, i as int)),
        decreases words@.len() - i,
    {
        let w = words[i];
        out.push((w / 256) as u8);
        out.push((w % 256) as u8);
        proof {
            let prev = words@.subrange(0, i as int);
            let next = words@.subrange(0, i + 1);
            assert(prev =~= next.drop_last());
            assert(be_bytes_of_words(next) =~= be_bytes_of_words(prev).push(hi(w)).push(lo(w)))
                by {
                assert forall|j: int| 0 <= j < 2 * prev.len() implies #[trigger] be_bytes_of_words(
                    next,
                )[j] == be_bytes_of_words(prev)[j] by {
                    assert(next[j / 2] == prev[j / 2]);
                }
            }
        }
        i = i + 1;
    }
    assert(words@.subrange(0, i as int) =~= words@);
    out
}

/// Index of the first end-of-text marker in `bytes`, or its length where
/// there is none.
pub fn find_text_end(bytes: &Vec<u8>) -> (r: usize)
    ensures
        r == text_end(bytes@),
{
    let mut i: usize = 0;
    while i < bytes.len()
        invariant
            i <= bytes@.len(),
            first_pair_from(bytes@, 0u8, 0x4cu8, i as int) == text_end(bytes@),
        decreases bytes@.len() - i,
    {
        if i + 1 < bytes.len() && bytes[i] == 0 && bytes[i + 1] == 0x4c {
            return i;
        }
        i = i + 1;
    }
    bytes.len()
}

/// Decodes registers that hold text: the words' big-endian bytes are read
/// as UTF-8 and the text ends before the first `"\0L"`.
///
/// The marker is ASCII, and no byte of a multi-byte UTF-8 character is
/// ASCII, so the bytes are cut before the marker's bytes before they are
/// turned into text.
pub fn decode_generic_reg(read_bytes: Vec<u16>) -> (r: DecodeResult<Generic>)
    ensures
        ({
            let b = be_bytes_of_words(read_bytes@);
            &&& r is Ok <==> valid_utf8(b)
            &&& r is Err ==> r == Err::<Generic, DecodeError>(DecodeError::InvalidData)
            &&& r matches Ok(g) ==> g@ == text_before_marker(decode_utf8(b))
        }),
{
    let mut bytes = words_to_be_bytes(&read_bytes);
    let ghost b = bytes@;
    let end = find_text_end(&bytes);
    proof {
        lemma_first_pair_bounds(b, 0u8, 0x4cu8, 0);
    }
    let whole = string_from_utf8(bytes.clone());
    if whole.is_none() {
        return Err(DecodeError::InvalidData);
    }
    proof {
        if end < b.len() {
            assert(!is_continuation_byte(b[end as int]));
            assert(is_char_boundary(b, end as int));
        } else {
            assert(is_char_boundary(b, b.len() as int));
        }
        assert(valid_utf8(b.subrange(0, end as int)));
        lemma_cut_encoding(decode_utf8(b));
        assert(b.take(end as int) == b.subrange(0, end as int));
    }
    bytes.truncate(end);
    match string_from_utf8(bytes) {
        Some(text) => Ok(Generic::from_generic(text)),
        None => Err(DecodeError::InvalidData),
    }
}

/// Decodes a two-word float sent in byte order (3, 4, 1, 2): the words are
/// swapped, each keeps its byte order, and the four bytes are read as a
/// big-endian IEEE-754 single.
pub fn decode_f32_reg(read_bytes: Vec<u16>) -> (r: DecodeResult<Float>)
    ensures
        read_bytes@.len() < 2 ==> r == Err::<Float, DecodeError>(DecodeError::InsufficientInput),
        read_bytes@.len() > 2 ==> r == Err::<Float, DecodeError>(DecodeError::InvalidInput),
        read_bytes@.len() == 2 ==> (r matches Ok(f) && ({
            let b = float_wire_bytes(read_bytes@[0], read_bytes@[1]);
            f.bits == be_u32(b[0], b[1], b[2], b[3])
        })),
{
    if read_bytes.len() < 2 {
        return Err(DecodeError::InsufficientInput);
    }
    if read_bytes.len() > 2 {
        return Err(DecodeError::InvalidInput);
    }
    let msb_word = read_bytes[0];
    let lsb_word = read_bytes[1];
    let new_bytes: Vec<u8> = vec![
        (lsb_word / 256) as u8,
        (lsb_word % 256) as u8,
        (msb_word / 256) as u8,
        (msb_word % 256) as u8,
    ];
    match decode_be_u32_from_bytes(new_bytes.as_slice()) {
        Ok((bits, _)) => Ok(Float::from_bits(bits)),
        Err(e) => Err(e),
    }
}

/// Decodes unsigned-integer registers: the words themselves, in order.
pub fn decode_register_words(read_bytes: Vec<u16>) -> (r: Register)
    ensures
        r@ == read_bytes@,
{
    Register::from_byte(read_bytes)
}

/// Decodes a raw word: the single word, passed through unchecked.
pub fn decode_raw_word(read_bytes: &Vec<u16>) -> (r: DecodeResult<RawCounts>)
    ensures
        read_bytes@.len() < 1 ==> r == Err::<RawCounts, DecodeError>(DecodeError::InsufficientInput),
        read_bytes@.len() > 1 ==> r == Err::<RawCounts, DecodeError>(DecodeError::InvalidInput),
        read_bytes@.len() == 1 ==> r == Ok::<RawCounts, DecodeError>(RawCounts(read_bytes@[0])),
{
    if read_bytes.len() < 1 {
        Err(DecodeError::InsufficientInput)
    } else if read_bytes.len() > 1 {
        Err(DecodeError::InvalidInput)
    } else {
        decode_raw_counts_from_u16(read_bytes[0])
    }
}

/// A raw word as water content, in hundredths of a percent.
#[derive(Clone, Copy, Debug, PartialEq, Eq, Structural)]
pub struct VolumetricWaterContentRaw(pub u16);

impl VolumetricWaterContentRaw {
    pub fn to_water_content(self) -> (r: VolumetricWaterContent)
        ensures
            r.hundredths == self.0,
    {
        VolumetricWaterContent::from_hundredths(self.0)
    }
}

/// Water content from a word in hundredths of a percent; above 100 % is
/// invalid.
pub fn decode_water_content_from_u16(input: u16) -> (r: DecodeResult<VolumetricWaterContent>)
    ensures
        input <= MAX_WATER_CONTENT_HUNDREDTHS ==> r == Ok::<VolumetricWaterContent, DecodeError>(
            VolumetricWaterContent { hundredths: input },
        ),
        input > MAX_WATER_CONTENT_HUNDREDTHS ==> r == Err::<VolumetricWaterContent, DecodeError>(
            DecodeError::InvalidData,
        ),
{
    let res = VolumetricWaterContentRaw(input).to_water_content();
    if res.is_valid() {
        Ok(res)
    } else {
        Err(DecodeError::InvalidData)
    }
}

pub fn decode_water_content_from_bytes(input: &[u8]) -> (r: DecodeResult<
    (VolumetricWaterContent, &[u8]),
>)
    ensures
        input@.len() < 2 ==> r is Err && r->Err_0 == DecodeError::InsufficientInput,
        input@.len() >= 2 && be_u16(input@[0], input@[1]) > MAX_WATER_CONTENT_HUNDREDTHS ==> r is Err
            && r->Err_0 == DecodeError::InvalidData,
        input@.len() >= 2 && be_u16(input@[0], input@[1]) <= MAX_WATER_CONTENT_HUNDREDTHS ==> (r matches Ok(
            (v, rest),
        ) && v.hundredths == be_u16(input@[0], input@[1]) && rest@ == input@.subrange(
            2,
            input@.len() as int,
        )),
{
    match decode_be_u16_from_bytes(input) {
        Ok((val, rest)) => match decode_water_content_from_u16(val) {
            Ok(v) => Ok((v, rest)),
            Err(e) => Err(e),
        },
        Err(e) => Err(e),
    }
}

/// A raw word as relative permittivity, in hundredths.
#[derive(Clone, Copy, Debug, PartialEq, Eq, Structural)]
pub struct RelativePermittivityRaw(pub u16);

impl RelativePermittivityRaw {
    pub fn to_permittivity(self) -> (r: RelativePermittivity)
        ensures
            r.hundredths == self.0,
    {
        RelativePermittivity::from_hundredths(self.0)
    }
}

/// Relative permittivity from a word in hundredths; below 1 is invalid.
pub fn decode_permittivity_from_u16(input: u16) -> (r: DecodeResult<RelativePermittivity>)
    ensures
        input >= MIN_PERMITTIVITY_HUNDREDTHS ==> r == Ok::<RelativePermittivity, DecodeError>(
            RelativePermittivity { hundredths: input },
        ),
        input < MIN_PERMITTIVITY_HUNDREDTHS ==> r == Err::<RelativePermittivity, DecodeError>(
            DecodeError::InvalidData,
        ),
{
    let res = RelativePermittivityRaw(input).to_permittivity();
    if res.is_valid() {
        Ok(res)
    } else {
        Err(DecodeError::InvalidData)
    }
}

pub fn decode_permittivity_from_bytes(input: &[u8]) -> (r: DecodeResult<
    (RelativePermittivity, &[u8]),
>)
    ensures
        input@.len() < 2 ==> r is Err && r->Err_0 == DecodeError::InsufficientInput,
        input@.len() >= 2 && be_u16(input@[0], input@[1]) < MIN_PERMITTIVITY_HUNDREDTHS ==> r is Err
            && r->Err_0 == DecodeError::InvalidData,
        input@.len() >= 2 && be_u16(input@[0], input@[1]) >= MIN_PERMITTIVITY_HUNDREDTHS ==> (r matches Ok(
            (v, rest),
        ) && v.hundredths == be_u16(input@[0], input@[1]) && rest@ == input@.subrange(
            2,
            input@.len() as int,
        )),
{
    match decode_be_u16_from_bytes(input) {
        Ok((val, rest)) => match decode_permittivity_from_u16(val) {
            Ok(v) => Ok((v, rest)),
            Err(e) => Err(e),
        },
        Err(e) => Err(e),
    }
}

/// Raw counts from a word: never fails.
pub fn decode_raw_counts_from_u16(input: u16) -> (r: DecodeResult<RawCounts>)
    ensures
        r == Ok::<RawCounts, DecodeError>(RawCounts(input)),
{
    Ok(RawCounts::from(input))
}

pub fn decode_raw_counts_from_bytes(input: &[u8]) -> (r: DecodeResult<(RawCounts, &[u8])>)
    ensures
        input@.len() < 2 ==> r is Err && r->Err_0 == DecodeError::InsufficientInput,
        input@.len() >= 2 ==> (r matches Ok((v, rest)) && v == RawCounts(be_u16(input@[0], input@[1]))
            && rest@ == input@.subrange(2, input@.len() as int)),
{
    match decode_be_u16_from_bytes(input) {
        Ok((val, rest)) => match decode_raw_counts_from_u16(val) {
            Ok(v) => Ok((v, rest)),
            Err(e) => Err(e),
        },
        Err(e) => Err(e),
    }
}

/// A decoded reading, one variant per type family.
#[derive(Clone, Debug, PartialEq)]
pub enum Reading {
    Text(Generic),
    Words(Register),
    Float(Float),
    Raw(RawCounts),
}

/// What decoding exactly the words `w` as `tag` gives.
pub open spec fn reading_matches(tag: TypeTag, w: Seq<u16>, r: DecodeResult<Reading>) -> bool {
    match tag {
        TypeTag::Ascii => {
            let b = be_bytes_of_words(w);
            &&& (r is Ok <==> valid_utf8(b))
            &&& (r is Err ==> r == Err::<Reading, DecodeError>(DecodeError::InvalidData))
            &&& (r matches Ok(x) ==> (x matches Reading::Text(g) && g@ == text_before_marker(
                decode_utf8(b),
            )))
        },
        TypeTag::UnsignedInteger => (r matches Ok(x) && (x matches Reading::Words(g) && g@ == w)),
        TypeTag::Float => if w.len() < 2 {
            r == Err::<Reading, DecodeError>(DecodeError::InsufficientInput)
        } else if w.len() > 2 {
            r == Err::<Reading, DecodeError>(DecodeError::InvalidInput)
        } else {
            let b = float_wire_bytes(w[0], w[1]);
            r == Ok::<Reading, DecodeError>(
                Reading::Float(Float { bits: be_u32(b[0], b[1], b[2], b[3]) }),
            )
        },
        TypeTag::RawWord => if w.len() < 1 {
            r == Err::<Reading, DecodeError>(DecodeError::InsufficientInput)
        } else if w.len() > 1 {
            r == Err::<Reading, DecodeError>(DecodeError::InvalidInput)
        } else {
            r == Ok::<Reading, DecodeError>(Reading::Raw(RawCounts(w[0])))
        },
    }
}

/// What decoding the words read for `entry` gives: the first `entry.count`
/// words decoded by its type, or `InsufficientInput` where fewer came.
pub open spec fn decoded_as(entry: MapEntry, words: Seq<u16>, r: DecodeResult<Reading>) -> bool {
    if words.len() < entry.count {
        r == Err::<Reading, DecodeError>(DecodeError::InsufficientInput)
    } else {
        reading_matches(entry.tag, words.subrange(0, entry.count as int), r)
    }
}

/// Decodes the words read for a map entry by the entry's type.
pub fn decode_reading(entry: MapEntry, words: Vec<u16>) -> (r: DecodeResult<Reading>)
    ensures
        decoded_as(entry, words@, r),
{
    if words.len() < entry.count as usize {
        return Err(DecodeError::InsufficientInput);
    }
    let mut used = words;
    used.truncate(entry.count as usize);
    match entry.tag {
        TypeTag::Ascii => match decode_generic_reg(used) {
            Ok(g) => Ok(Reading::Text(g)),
            Err(e) => Err(e),
        },
        TypeTag::UnsignedInteger => Ok(Reading::Words(decode_register_words(used))),
        TypeTag::Float => match decode_f32_reg(used) {
            Ok(f) => Ok(Reading::Float(f)),
            Err(e) => Err(e),
        },
        TypeTag::RawWord => match decode_raw_word(&used) {
            Ok(c) => Ok(Reading::Raw(c)),
            Err(e) => Err(e),
        },
    }
}

} // verus!
