//! The configuration of a run: what the command line gave, checked once
//! and then passed on unchanged.

use vstd::prelude::*;
use vstd::string::*;
use vstd::utf8::*;
use crate::error::ConfigError;
use crate::geometry::{is_positive_finite, Dpi, Extent};
use crate::inputs::{select_input, InputSource};

verus! {

/// The resolution used when none is given: the bit pattern of 96.0.
pub const DEFAULT_DPI_BITS: u64 = 0x4058_0000_0000_0000;

/// The width of the scaling frame when none is given.
pub const DEFAULT_SCALE_WIDTH: u32 = 720;

/// The height of the scaling frame when none is given.
pub const DEFAULT_SCALE_HEIGHT: u32 = 1280;

/// Whether a character is a decimal digit.
pub open spec fn is_digit(c: char) -> bool {
    '0' <= c <= '9'
}

/// The number that a string of decimal digits denotes.
pub open spec fn decimal_value(digits: Seq<char>) -> nat
    decreases digits.len(),
{
    if digits.len() == 0 {
        0
    } else {
        (10 * decimal_value(digits.drop_last()) + (digits.last() as u32 - '0' as u32)) as nat
    }
}

/// The digits of a numeral: the text without a leading plus sign.
pub open spec fn numeral_digits(text: Seq<char>) -> Seq<char> {
    if text.len() > 0 && text[0] == '+' {
        text.drop_first()
    } else {
        text
    }
}

/// The unsigned 32-bit integer that a text denotes, if it denotes one: an
/// optional plus sign, then one or more decimal digits whose value fits.
/// Anything else, white space included, is not a number.
pub open spec fn parsed_u32(text: Seq<char>) -> Option<u32> {
    let digits = numeral_digits(text);
    if digits.len() > 0 && (forall|i: int| 0 <= i < digits.len() ==> is_digit(#[trigger] digits[i]))
        && decimal_value(digits) <= u32::MAX {
        Some(decimal_value(digits) as u32)
    } else {
        None
    }
}

/// A string of digits denotes at least what any of its prefixes denotes.
proof fn decimal_value_grows(digits: Seq<char>, k: int)
    requires
        0 <= k <= digits.len(),
        forall|i: int| 0 <= i < digits.len() ==> is_digit(#[trigger] digits[i]),
    ensures
        decimal_value(digits.take(k)) <= decimal_value(digits),
    decreases digits.len() - k,
{
    if k == digits.len() {
        assert(digits.take(k) =~= digits);
    } else {
        decimal_value_grows(digits, k + 1);
        assert(digits.take(k + 1).drop_last() =~= digits.take(k));
        assert(is_digit(digits[k]));
    }
}

/// Reads an unsigned 32-bit integer in decimal notation.
pub fn parse_u32(text: &str) -> (r: Option<u32>)
    ensures
        r == parsed_u32(text@),
{
    if !text.is_ascii() {
        proof {
            let digits = numeral_digits(text@);
            let i = choose|i: int|
                0 <= i < text@.len() && !('\0' <= #[trigger] text@[i] <= '\u{7f}');
            if text@[0] == '+' {
                assert(digits[i - 1] == text@[i]);
            }
        }
        return None;
    }
    let bytes = text.as_bytes();
    proof {
        is_ascii_chars_encode_utf8(text@);
    }
    let n = bytes.len();
    let start: usize = if n > 0 && bytes[0] == 43u8 {
        1
    } else {
        0
    };
    let ghost digits = numeral_digits(text@);
    assert(digits =~= text@.skip(start as int));
    if start == n {
        return None;
    }
    let mut value: u64 = 0;
    let mut i: usize = start;
    proof {
        assert(digits.take(0) =~= Seq::<char>::empty());
    }
    while i < n
        invariant
            start <= i <= n,
            n == text@.len(),
            n == bytes@.len(),
            digits == text@.skip(start as int),
            digits == numeral_digits(text@),
            is_ascii_chars(text@),
            forall|j: int| 0 <= j < n ==> text@[j] as u8 == #[trigger] bytes@[j],
            forall|j: int| 0 <= j < i - start ==> is_digit(#[trigger] digits[j]),
            value == decimal_value(digits.take(i - start)),
            value <= u32::MAX,
        decreases n - i,
    {
        let b = bytes[i];
        let ghost c = text@[i as int];
        assert(c == digits[i - start]);
        assert(c as u8 == b);
        assert('\0' <= c <= '\u{7f}');
        if b < 48 || b > 57 {
            assert(!is_digit(c));
            return None;
        }
        let next: u64 = value * 10 + (b - 48) as u64;
        proof {
            assert(digits.take(i + 1 - start).drop_last() =~= digits.take(i - start));
            assert(digits.take(i + 1 - start).last() == c);
            assert(next == decimal_value(digits.take(i + 1 - start)));
        }
        if next > u32::MAX as u64 {
            proof {
                if forall|j: int| 0 <= j < digits.len() ==> is_digit(#[trigger] digits[j]) {
                    decimal_value_grows(digits, i + 1 - start);
                }
            }
            return None;
        }
        value = next;
        i += 1;
    }
    proof {
        assert(digits.take(i - start) =~= digits);
    }
    Some(value as u32)
}

/// What the command line gave for the resolution.
#[derive(Debug, Clone, Copy, PartialEq, Eq, Structural)]
pub enum DpiArgument {
    /// No resolution was given.
    Absent,
    /// A resolution was given, but its text is not a number.
    Unparsable,
    /// The bit pattern of the double that was given.
    Bits(u64),
}

/// The arguments of a run as the command line gave them, unchecked.
/// A frame side that was not given is `None`.
#[derive(Debug)]
pub struct RawArguments {
    pub images: Option<Vec<String>>,
    pub directory: Option<String>,
    pub output: String,
    pub dpi: DpiArgument,
    pub scale_width: Option<String>,
    pub scale_height: Option<String>,
    pub auto_sort: bool,
    pub title: String,
}

/// The configuration of a run. It is made once, by [`configure`], and
/// read from then on.
#[derive(Debug)]
pub struct RunConfig {
    pub source: InputSource,
    pub output: String,
    pub dpi: Dpi,
    pub frame: Extent,
    pub auto_sort: bool,
    pub title: String,
}

/// The resolution that an argument stands for: the default if none was
/// given, and an error for a text that is no number or a number that is
/// not finite and positive.
pub open spec fn dpi_setting(argument: DpiArgument) -> Result<u64, ConfigError> {
    match argument {
        DpiArgument::Absent => Ok(DEFAULT_DPI_BITS),
        DpiArgument::Unparsable => Err(ConfigError::DpiNotANumber),
        DpiArgument::Bits(bits) => if is_positive_finite(bits) {
            Ok(bits)
        } else {
            Err(ConfigError::DpiNotPositive)
        },
    }
}

/// The frame side that an argument stands for: `default` if none was
/// given, and `fault` for a text that is no unsigned 32-bit integer.
pub open spec fn side_setting(argument: Option<String>, default: u32, fault: ConfigError) -> Result<
    u32,
    ConfigError,
> {
    match argument {
        None => Ok(default),
        Some(text) => match parsed_u32(text@) {
            Some(side) => Ok(side),
            None => Err(fault),
        },
    }
}

/// The first fault of the arguments, in the order in which they are
/// checked: the choice of input, the resolution, the frame width, the
/// frame height.
pub open spec fn first_fault(raw: RawArguments) -> Option<ConfigError> {
    if raw.images is None && raw.directory is None {
        Some(ConfigError::MissingInput)
    } else if raw.images is Some && raw.directory is Some {
        Some(ConfigError::ConflictingInputs)
    } else if dpi_setting(raw.dpi) is Err {
        Some(dpi_setting(raw.dpi)->Err_0)
    } else if side_setting(raw.scale_width, DEFAULT_SCALE_WIDTH, ConfigError::ScaleWidthNotAnInteger)
        is Err {
        Some(ConfigError::ScaleWidthNotAnInteger)
    } else if side_setting(
        raw.scale_height,
        DEFAULT_SCALE_HEIGHT,
        ConfigError::ScaleHeightNotAnInteger,
    ) is Err {
        Some(ConfigError::ScaleHeightNotAnInteger)
    } else {
        None
    }
}

/// Checks the resolution argument.
pub fn read_dpi(argument: DpiArgument) -> (r: Result<Dpi, ConfigError>)
    ensures
        match dpi_setting(argument) {
            Ok(bits) => r matches Ok(dpi) && dpi@ == bits,
            Err(fault) => r == Err::<Dpi, ConfigError>(fault),
        },
{
    match argument {
        DpiArgument::Absent => Dpi::from_bits(DEFAULT_DPI_BITS),
        DpiArgument::Unparsable => Err(ConfigError::DpiNotANumber),
        DpiArgument::Bits(bits) => Dpi::from_bits(bits),
    }
}

/// Checks one side of the scaling frame.
pub fn read_side(argument: &Option<String>, default: u32, fault: ConfigError) -> (r: Result<
    u32,
    ConfigError,
>)
    ensures
        r == side_setting(*argument, default, fault),
{
    match argument {
        None => Ok(default),
        Some(text) => match parse_u32(text.as_str()) {
            Some(side) => Ok(side),
            None => Err(fault),
        },
    }
}

/// Checks the arguments of a run and makes its configuration.
///
/// The run is configured exactly when the arguments have no fault;
/// otherwise the first fault is the error. The configuration holds the
/// chosen input source, the resolution, the scaling frame, and the other
/// arguments as they were given.
pub fn configure(raw: RawArguments) -> (r: Result<RunConfig, ConfigError>)
    ensures
        match first_fault(raw) {
            Some(fault) => r == Err::<RunConfig, ConfigError>(fault),
            None => {
                &&& r matches Ok(config)
                &&& Ok::<u64, ConfigError>(config.dpi@) == dpi_setting(raw.dpi)
                &&& Ok::<u32, ConfigError>(config.frame.width) == side_setting(
                    raw.scale_width,
                    DEFAULT_SCALE_WIDTH,
                    ConfigError::ScaleWidthNotAnInteger,
                )
                &&& Ok::<u32, ConfigError>(config.frame.height) == side_setting(
                    raw.scale_height,
                    DEFAULT_SCALE_HEIGHT,
                    ConfigError::ScaleHeightNotAnInteger,
                )
                &&& raw.images matches Some(list) ==> config.source == InputSource::Files(list)
                &&& raw.directory matches Some(dir) ==> config.source == InputSource::Directory(
                    dir,
                )
                &&& config.output == raw.output
                &&& config.auto_sort == raw.auto_sort
                &&& config.title == raw.title
            },
        },
{
    let RawArguments {
        images,
        directory,
        output,
        dpi,
        scale_width,
        scale_height,
        auto_sort,
        title,
    } = raw;
    let source = match select_input(images, directory) {
        Ok(source) => source,
        Err(fault) => {
            return Err(fault);
        },
    };
    let dpi = match read_dpi(dpi) {
        Ok(dpi) => dpi,
        Err(fault) => {
            return Err(fault);
        },
    };
    let width = match read_side(&scale_width, DEFAULT_SCALE_WIDTH, ConfigError::ScaleWidthNotAnInteger) {
        Ok(width) => width,
        Err(fault) => {
            return Err(fault);
        },
    };
    let height = match read_side(
        &scale_height,
        DEFAULT_SCALE_HEIGHT,
        ConfigError::ScaleHeightNotAnInteger,
    ) {
        Ok(height) => height,
        Err(fault) => {
            return Err(fault);
        },
    };
    Ok(RunConfig { source, output, dpi, frame: Extent { width, height }, auto_sort, title })
}

/// Whether a text is free of path separators.
pub open spec fn has_no_separator(text: Seq<char>) -> bool {
    forall|i: int| 0 <= i < text.len() ==> #[trigger] text[i] != '/' && text[i] != '\\'
}

/// The extension that `Path::extension` finds in the file name of a path,
/// if it finds one. The path is only read as text, by the path syntax of
/// the platform that the program is built for.
pub uninterp spec fn extension_in(path: Seq<char>) -> Option<Seq<char>>;

/// What `Path::with_extension` makes of a path and an extension: the path
/// with the extension of its file name set to the one given. The path is
/// only read as text, by the path syntax of the platform that the program
/// is built for.
pub uninterp spec fn with_extension_set(path: Seq<char>, extension: Seq<char>) -> Seq<char>;

/// `Path::extension`: the extension of the file name of `path`, if it has
/// one. The contract names the result and claims no more of it.
#[verifier::external_body]
fn extension_of(path: &str) -> (r: Option<String>)
    ensures
        r matches Some(e) ==> extension_in(path@) == Some(e@),
        r is None ==> extension_in(path@) is None,
{
    std::path::Path::new(path).extension().map(|e| e.to_string_lossy().into_owned())
}

/// `Path::with_extension`: `path` with the extension of its file name set
/// to `extension`. The contract names the result and claims no more of
/// it. The function panics on an extension that holds a path separator,
/// which is left out.
#[verifier::external_body]
fn with_extension(path: &str, extension: &str) -> (r: String)
    requires
        has_no_separator(extension@),
    ensures
        r@ == with_extension_set(path@, extension@),
{
    std::path::Path::new(path).with_extension(extension).to_string_lossy().into_owned()
}

/// The extension of a PDF file.
pub open spec fn pdf_extension() -> Seq<char> {
    "pdf"@
}

/// Settles the path of the output file: `given` if `extension`, the
/// extension that it has, is that of a PDF file, and `replaced`, the same
/// path under the PDF extension, otherwise.
pub fn settle_output(given: String, extension: Option<String>, replaced: String) -> (r: String)
    ensures
        r@ == if extension matches Some(e) && e@ == pdf_extension() {
            given@
        } else {
            replaced@
        },
{
    let pdf = "pdf".to_owned();
    match extension {
        Some(e) => if e == pdf {
            given
        } else {
            replaced
        },
        None => replaced,
    }
}

/// The path that the document is written to when `given` is the output
/// path of the command line: `given` itself if the extension of its file
/// name is that of a PDF file, and otherwise `given` with the extension of
/// its file name set to that of a PDF file, which appends the extension
/// where there is none and replaces any other.
pub open spec fn output_path_of(given: Seq<char>) -> Seq<char> {
    if extension_in(given) == Some(pdf_extension()) {
        given
    } else {
        with_extension_set(given, pdf_extension())
    }
}

/// The path that the document is written to: the path given, with the
/// extension of its file name set to that of a PDF file unless it has
/// that extension already.
///
/// The platform's path rules find the extension and replace it, and
/// [`settle_output`] decides between the two paths.
pub fn output_path(given: String) -> (r: String)
    ensures
        r@ == output_path_of(given@),
{
    proof {
        reveal_strlit("pdf");
    }
    let extension = extension_of(given.as_str());
    let replaced = with_extension(given.as_str(), "pdf");
    settle_output(given, extension, replaced)
}

} // verus!
