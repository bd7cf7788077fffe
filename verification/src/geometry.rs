//! Page geometry: sizes in pixels, the resolution of a run, and the
//! physical length of a row of pixels at that resolution.
//!
//! Verified code has no floating-point arithmetic, so the resolution is
//! exchanged as the bit pattern of an IEEE 754 double, which this module
//! decodes exactly, and lengths are exact fractions scaled by a power of
//! two.

use vstd::prelude::*;
use crate::error::ConfigError;

verus! {

/// A size in pixels: that of an image, or that of the frame into which
/// images are scaled.
#[derive(Debug, Clone, Copy, PartialEq, Eq, Structural)]
pub struct Extent {
    pub width: u32,
    pub height: u32,
}

/// Whether an extent lies within a frame: each side is at least one pixel
/// and no larger than the frame's side. A frame side of zero admits one
/// pixel.
pub open spec fn within(extent: Extent, frame: Extent) -> bool {
    &&& 1 <= extent.width <= vstd::math::max(frame.width as int, 1)
    &&& 1 <= extent.height <= vstd::math::max(frame.height as int, 1)
}

/// Whether `fitted` has the aspect ratio of `source`, as far as whole
/// pixels allow: with the two ratios cross-multiplied, the difference is
/// less than the longer side of the source. A scaled side is off its true
/// length by a rounding to a whole pixel, or by less than one pixel where
/// it would have vanished, and this is what that leaves of the ratio.
pub open spec fn keeps_aspect(source: Extent, fitted: Extent) -> bool {
    let skew = fitted.width * source.height - fitted.height * source.width;
    let longer = vstd::math::max(source.width as int, source.height as int);
    -longer < skew < longer
}

/// Two to the power 52: the weight of the hidden bit of a double.
pub const HIDDEN_BIT: u64 = 0x10_0000_0000_0000;

/// Two to the power 63: the weight of the sign bit of a double.
pub const SIGN_BIT: u64 = 0x8000_0000_0000_0000;

/// The bit pattern of positive infinity; every larger pattern with a clear
/// sign bit is a NaN.
pub const INFINITY_BITS: u64 = 0x7ff0_0000_0000_0000;

/// The sign field of a double: 1 for a negative value.
pub open spec fn sign_field(bits: u64) -> int {
    bits as int / SIGN_BIT as int
}

/// The biased exponent field of a double, eleven bits wide.
pub open spec fn exponent_field(bits: u64) -> int {
    (bits as int / HIDDEN_BIT as int) % 0x800
}

/// The fraction field of a double, fifty-two bits wide.
pub open spec fn fraction_field(bits: u64) -> int {
    bits as int % HIDDEN_BIT as int
}

/// Whether `bits` encodes a double that is finite and greater than zero:
/// the sign is clear, the exponent field is not all ones (infinity, NaN),
/// and the value is not zero.
pub open spec fn is_positive_finite(bits: u64) -> bool {
    &&& sign_field(bits) == 0
    &&& exponent_field(bits) != 0x7ff
    &&& !(exponent_field(bits) == 0 && fraction_field(bits) == 0)
}

/// The integer significand of the double encoded by `bits`: the fraction
/// field, with the hidden bit added for a normal number.
pub open spec fn significand(bits: u64) -> int {
    if exponent_field(bits) == 0 {
        fraction_field(bits)
    } else {
        HIDDEN_BIT as int + fraction_field(bits)
    }
}

/// The power of two by which the significand is scaled: the double encoded
/// by `bits` is `significand(bits) * 2^binary_exponent(bits)`.
pub open spec fn binary_exponent(bits: u64) -> int {
    if exponent_field(bits) == 0 {
        -1074
    } else {
        exponent_field(bits) - 1075
    }
}

/// A resolution in dots per inch: a finite double greater than zero, held
/// as its bit pattern.
#[derive(Debug, Clone, Copy)]
pub struct Dpi {
    bits: u64,
}

impl View for Dpi {
    type V = u64;

    /// The bit pattern of the resolution.
    closed spec fn view(&self) -> u64 {
        self.bits
    }
}

impl Dpi {
    /// The invariant of the type: the resolution is finite and positive.
    #[verifier::type_invariant]
    spec fn positive_finite(self) -> bool {
        is_positive_finite(self.bits)
    }

    /// Accepts the bit pattern of a double as a resolution if and only if
    /// the double is finite and greater than zero.
    pub fn from_bits(bits: u64) -> (r: Result<Dpi, ConfigError>)
        ensures
            r is Ok <==> is_positive_finite(bits),
            r matches Ok(dpi) ==> dpi@ == bits,
            r matches Err(e) ==> e == ConfigError::DpiNotPositive,
    {
        if 0 < bits && bits < INFINITY_BITS {
            Ok(Dpi { bits })
        } else {
            Err(ConfigError::DpiNotPositive)
        }
    }

    /// The bit pattern of the resolution, which is that of a finite
    /// double greater than zero.
    pub fn bits(&self) -> (bits: u64)
        ensures
            bits == self@,
            is_positive_finite(bits),
    {
        proof {
            use_type_invariant(self);
        }
        self.bits
    }

    /// The integer significand of the resolution.
    pub fn significand(&self) -> (m: u64)
        ensures
            m == significand(self@),
            0 < m < 2 * HIDDEN_BIT,
    {
        proof {
            use_type_invariant(self);
        }
        let fraction: u64 = self.bits % HIDDEN_BIT;
        if (self.bits / HIDDEN_BIT) % 0x800 == 0 {
            fraction
        } else {
            HIDDEN_BIT + fraction
        }
    }

    /// The power of two that scales the significand of the resolution.
    pub fn exponent(&self) -> (e: i32)
        ensures
            e == binary_exponent(self@),
            -1074 <= e <= 971,
    {
        proof {
            use_type_invariant(self);
        }
        let field: u64 = (self.bits / HIDDEN_BIT) % 0x800;
        if field == 0 {
            -1074
        } else {
            field as i32 - 1075
        }
    }
}

/// A physical length in millimetres, held exactly as
/// `numerator / denominator * 2^exponent`.
#[derive(Debug, Clone, Copy)]
pub struct Length {
    numerator: u64,
    denominator: u64,
    exponent: i32,
}

/// What a [`Length`] stands for: the three integers of
/// `numerator / denominator * 2^exponent`.
pub struct LengthView {
    pub numerator: int,
    pub denominator: int,
    pub exponent: int,
}

impl View for Length {
    type V = LengthView;

    closed spec fn view(&self) -> LengthView {
        LengthView {
            numerator: self.numerator as int,
            denominator: self.denominator as int,
            exponent: self.exponent as int,
        }
    }
}

/// Whether `length`, in millimetres, is the extent of `pixels` pixels at
/// the resolution encoded by `dpi`: over the rationals,
/// `length * resolution == pixels * 25.4`. The two powers of two cancel
/// and the rest is compared by cross-multiplication.
pub open spec fn spans(length: LengthView, pixels: int, dpi: u64) -> bool {
    &&& length.denominator > 0
    &&& length.exponent + binary_exponent(dpi) == 0
    &&& 10 * (length.numerator * significand(dpi)) == 254 * (pixels * length.denominator)
}

impl Length {
    /// The invariant of the type: the denominator is not zero.
    #[verifier::type_invariant]
    spec fn proper(self) -> bool {
        self.denominator > 0
    }

    /// The numerator of the fraction.
    pub fn numerator(&self) -> (n: u64)
        ensures
            n == self@.numerator,
    {
        self.numerator
    }

    /// The denominator of the fraction, which is not zero.
    pub fn denominator(&self) -> (d: u64)
        ensures
            d == self@.denominator,
            d > 0,
    {
        proof {
            use_type_invariant(self);
        }
        self.denominator
    }

    /// The power of two by which the fraction is scaled.
    pub fn exponent(&self) -> (e: i32)
        ensures
            e == self@.exponent,
    {
        self.exponent
    }
}

/// The length of `pixels` pixels at the resolution encoded by `dpi`: with
/// the resolution `m * 2^e`, it is `127 * pixels / (5 * m)` scaled by
/// `2^-e`.
pub open spec fn page_length_of(pixels: u32, dpi: u64) -> LengthView {
    LengthView {
        numerator: 127 * pixels,
        denominator: 5 * significand(dpi),
        exponent: -binary_exponent(dpi),
    }
}

/// The physical extent, in millimetres, of `pixels` pixels at resolution
/// `dpi`: `pixels * 25.4 / dpi`, exactly.
pub fn page_length(pixels: u32, dpi: &Dpi) -> (length: Length)
    ensures
        length@ == page_length_of(pixels, dpi@),
        spans(length@, pixels as int, dpi@),
{
    let m: u64 = dpi.significand();
    let e: i32 = dpi.exponent();
    let length = Length { numerator: 127 * (pixels as u64), denominator: 5 * m, exponent: -e };
    assert(10 * ((127 * pixels) * m) == 254 * (pixels * (5 * m))) by (nonlinear_arith);
    length
}

/// The physical size of a page: its width and its height in millimetres.
#[derive(Debug, Clone, Copy)]
pub struct PageSize {
    pub width: Length,
    pub height: Length,
}

/// The size of the page that an image of `width` by `height` pixels fills
/// at resolution `dpi`. Both axes are converted by the same rule.
pub fn page_size(width: u32, height: u32, dpi: &Dpi) -> (size: PageSize)
    ensures
        size.width@ == page_length_of(width, dpi@),
        size.height@ == page_length_of(height, dpi@),
        spans(size.width@, width as int, dpi@),
        spans(size.height@, height as int, dpi@),
{
    PageSize { width: page_length(width, dpi), height: page_length(height, dpi) }
}

/// Page lengths are exact: for every pixel count and every finite positive
/// resolution, the page length times the resolution is the pixel count
/// times 25.4, the number of millimetres in an inch.
pub proof fn page_length_is_exact(pixels: u32, dpi: u64)
    requires
        is_positive_finite(dpi),
    ensures
        spans(page_length_of(pixels, dpi), pixels as int, dpi),
{
    let m = significand(dpi);
    assert(10 * ((127 * pixels) * m) == 254 * (pixels * (5 * m))) by (nonlinear_arith);
}

/// Two lengths that span the same pixel count at the same resolution are
/// the same rational number.
pub proof fn spanning_lengths_agree(a: LengthView, b: LengthView, pixels: int, dpi: u64)
    requires
        is_positive_finite(dpi),
        spans(a, pixels, dpi),
        spans(b, pixels, dpi),
    ensures
        a.exponent == b.exponent,
        a.numerator * b.denominator == b.numerator * a.denominator,
{
    let m = significand(dpi);
    assert(m > 0);
    assert(a.numerator * b.denominator == b.numerator * a.denominator) by (nonlinear_arith)
        requires
            m > 0,
            10 * (a.numerator * m) == 254 * (pixels * a.denominator),
            10 * (b.numerator * m) == 254 * (pixels * b.denominator),
    ;
}

} // verus!
