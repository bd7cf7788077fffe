use pdf_merger::error::ConfigError;
use pdf_merger::geometry::{page_length, page_size, Dpi, Length, HIDDEN_BIT};

fn dpi(value: f64) -> Dpi {
    Dpi::from_bits(value.to_bits()).unwrap()
}

fn millimetres(length: &Length) -> f64 {
    let fraction = length.numerator() as f64 / length.denominator() as f64;
    let half = length.exponent() / 2;
    fraction * 2f64.powi(half) * 2f64.powi(length.exponent() - half)
}

fn close(a: f64, b: f64) -> bool {
    (a - b).abs() <= 1e-12 * b.abs().max(1.0)
}

#[test]
fn dpi_accepts_finite_positive_doubles() {
    for value in [96.0f64, 100.0, 0.5, 1e-300, f64::MIN_POSITIVE, f64::MAX, 5e-324] {
        let accepted = Dpi::from_bits(value.to_bits());
        assert!(accepted.is_ok(), "{value}");
        assert_eq!(accepted.unwrap().bits(), value.to_bits());
    }
}

#[test]
fn dpi_rejects_zero() {
    assert_eq!(Dpi::from_bits(0.0f64.to_bits()).unwrap_err(), ConfigError::DpiNotPositive);
    assert_eq!(Dpi::from_bits((-0.0f64).to_bits()).unwrap_err(), ConfigError::DpiNotPositive);
}

#[test]
fn dpi_rejects_negative_numbers() {
    for value in [-1.0f64, -96.0, -5e-324, f64::MIN] {
        assert_eq!(Dpi::from_bits(value.to_bits()).unwrap_err(), ConfigError::DpiNotPositive);
    }
}

#[test]
fn dpi_rejects_infinities_and_nan() {
    for value in [f64::INFINITY, f64::NEG_INFINITY, f64::NAN, -f64::NAN] {
        assert_eq!(Dpi::from_bits(value.to_bits()).unwrap_err(), ConfigError::DpiNotPositive);
    }
    assert!(Dpi::from_bits(u64::MAX).is_err());
    assert!(Dpi::from_bits(0x7ff0_0000_0000_0001).is_err());
}

#[test]
fn dpi_decodes_one_hundred() {
    let hundred = dpi(100.0);
    assert_eq!(hundred.significand(), 25 << 48);
    assert_eq!(hundred.exponent(), -46);
}

#[test]
fn dpi_decodes_exactly() {
    for value in [96.0f64, 100.0, 72.0, 300.0, 0.1, 1e-310, 5e-324, f64::MAX, 123.456] {
        let d = dpi(value);
        let m = d.significand();
        assert!(m > 0 && m < 2 * HIDDEN_BIT);
        let half = d.exponent() / 2;
        let decoded = m as f64 * 2f64.powi(half) * 2f64.powi(d.exponent() - half);
        assert_eq!(decoded, value);
    }
}

#[test]
fn page_length_of_720_pixels_at_100_dpi() {
    let length = page_length(720, &dpi(100.0));
    assert_eq!(length.numerator(), 91440);
    assert_eq!(length.denominator(), 5 * (25u64 << 48));
    assert_eq!(length.exponent(), 46);
    assert!(close(millimetres(&length), 182.88));
}

#[test]
fn page_length_of_nothing_is_zero() {
    let length = page_length(0, &dpi(96.0));
    assert_eq!(length.numerator(), 0);
    assert_eq!(millimetres(&length), 0.0);
}

#[test]
fn page_length_of_the_widest_image() {
    let length = page_length(u32::MAX, &dpi(96.0));
    assert_eq!(length.numerator(), 127 * u32::MAX as u64);
    assert!(close(millimetres(&length), u32::MAX as f64 * 25.4 / 96.0));
}

#[test]
fn page_length_is_pixels_times_25_4_over_dpi() {
    for resolution in [96.0f64, 100.0, 72.0, 300.0, 0.1, 123.456, 1e6, 1e-3] {
        for pixels in [1u32, 2, 300, 600, 720, 800, 1280, 65535, u32::MAX] {
            let length = page_length(pixels, &dpi(resolution));
            let expected = pixels as f64 * 25.4 / resolution;
            assert!(close(millimetres(&length), expected), "{pixels} at {resolution}");
        }
    }
}

#[test]
fn page_size_treats_both_axes_alike() {
    let resolution = dpi(100.0);
    let size = page_size(800, 600, &resolution);
    assert!(close(millimetres(&size.width), 203.2));
    assert!(close(millimetres(&size.height), 152.4));
    let swapped = page_size(600, 800, &resolution);
    assert_eq!(swapped.width.numerator(), size.height.numerator());
    assert_eq!(swapped.width.denominator(), size.height.denominator());
    assert_eq!(swapped.height.numerator(), size.width.numerator());
    assert_eq!(swapped.width.exponent(), size.width.exponent());
}

#[test]
fn page_length_at_the_default_resolution() {
    let resolution = Dpi::from_bits(pdf_merger::config::DEFAULT_DPI_BITS).unwrap();
    assert_eq!(f64::from_bits(resolution.bits()), 96.0);
    let inch = page_length(96, &resolution);
    assert!(close(millimetres(&inch), 25.4));
}
