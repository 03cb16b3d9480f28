//! The values that a decoded register reading can hold.

use vstd::prelude::*;

verus! {

/// The words of one or more holding registers, in the order they were read.
#[derive(Clone, Debug, PartialEq)]
pub struct Register(Vec<u16>);

impl View for Register {
    type V = Seq<u16>;

    closed spec fn view(&self) -> Seq<u16> {
        self.0@
    }
}

impl Register {
    pub fn from_byte(word: Vec<u16>) -> (r: Self)
        ensures
            r@ == word@,
    {
        Register(word)
    }

    /// The words, in read order.
    pub fn to_display(self) -> (r: Vec<u16>)
        ensures
            r@ == self@,
    {
        self.0
    }
}

/// Text read from registers that hold ASCII (or UTF-8) characters.
#[derive(Clone, Debug, PartialEq)]
pub struct Generic(String);

impl View for Generic {
    type V = Seq<char>;

    closed spec fn view(&self) -> Seq<char> {
        self.0@
    }
}

impl Generic {
    pub fn from_generic(read_val: String) -> (r: Self)
        ensures
            r@ == read_val@,
    {
        Generic(read_val)
    }

    /// The text itself.
    pub fn as_str(&self) -> (r: &str)
        ensures
            r@ == self@,
    {
        self.0.as_str()
    }
}

/// A 32-bit IEEE-754 value, held as its bit pattern.
#[derive(Clone, Copy, Debug, PartialEq, Eq, Structural)]
pub struct Float {
    pub bits: u32,
}

impl Float {
    pub fn from_bits(bits: u32) -> (r: Self)
        ensures
            r.bits == bits,
    {
        Float { bits }
    }

    pub fn to_bits(self) -> (r: u32)
        ensures
            r == self.bits,
    {
        self.bits
    }
}

/// Raw, uncalibrated signal of a sensor.
#[derive(Clone, Copy, Debug, Default, PartialEq, Eq, PartialOrd, Ord, Hash, Structural)]
pub struct RawCounts(pub u16);

impl From<u16> for RawCounts {
    fn from(from: u16) -> (r: Self) {
        RawCounts(from)
    }
}

impl vstd::std_specs::convert::FromSpecImpl<u16> for RawCounts {
    open spec fn obeys_from_spec() -> bool {
        true
    }

    open spec fn from_spec(v: u16) -> Self {
        RawCounts(v)
    }
}

impl From<RawCounts> for u16 {
    fn from(from: RawCounts) -> (r: Self) {
        from.0
    }
}

impl vstd::std_specs::convert::FromSpecImpl<RawCounts> for u16 {
    open spec fn obeys_from_spec() -> bool {
        true
    }

    open spec fn from_spec(v: RawCounts) -> Self {
        v.0
    }
}

/// Largest valid volumetric water content, in hundredths of a percent.
pub const MAX_WATER_CONTENT_HUNDREDTHS: u16 = 10000;

/// Smallest valid relative permittivity, in hundredths.
pub const MIN_PERMITTIVITY_HUNDREDTHS: u16 = 100;

/// Volumetric water content (VWC), in hundredths of a percent.
#[derive(Clone, Copy, Debug, PartialEq, Eq, Structural)]
pub struct VolumetricWaterContent {
    pub hundredths: u16,
}

impl VolumetricWaterContent {
    pub open spec fn spec_is_valid(self) -> bool {
        self.hundredths <= MAX_WATER_CONTENT_HUNDREDTHS
    }

    pub fn from_hundredths(hundredths: u16) -> (r: Self)
        ensures
            r.hundredths == hundredths,
    {
        VolumetricWaterContent { hundredths }
    }

    pub fn min() -> (r: Self)
        ensures
            r.hundredths == 0,
    {
        VolumetricWaterContent { hundredths: 0 }
    }

    pub fn max() -> (r: Self)
        ensures
            r.hundredths == MAX_WATER_CONTENT_HUNDREDTHS,
    {
        VolumetricWaterContent { hundredths: MAX_WATER_CONTENT_HUNDREDTHS }
    }

    /// Whether the value lies between 0 % and 100 %.
    pub fn is_valid(self) -> (r: bool)
        ensures
            r == self.spec_is_valid(),
    {
        self.hundredths <= MAX_WATER_CONTENT_HUNDREDTHS
    }
}

/// Relative permittivity or dielectric constant (DK), in hundredths.
#[derive(Clone, Copy, Debug, PartialEq, Eq, Structural)]
pub struct RelativePermittivity {
    pub hundredths: u16,
}

impl RelativePermittivity {
    pub open spec fn spec_is_valid(self) -> bool {
        self.hundredths >= MIN_PERMITTIVITY_HUNDREDTHS
    }

    pub fn from_hundredths(hundredths: u16) -> (r: Self)
        ensures
            r.hundredths == hundredths,
    {
        RelativePermittivity { hundredths }
    }

    pub fn min() -> (r: Self)
        ensures
            r.hundredths == MIN_PERMITTIVITY_HUNDREDTHS,
    {
        RelativePermittivity { hundredths: MIN_PERMITTIVITY_HUNDREDTHS }
    }

    /// Whether the ratio is at least 1.
    pub fn is_valid(self) -> (r: bool)
        ensures
            r == self.spec_is_valid(),
    {
        self.hundredths >= MIN_PERMITTIVITY_HUNDREDTHS
    }
}

} // verus!
