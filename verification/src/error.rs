//! Error values reported by the library.

use vstd::prelude::*;

verus! {

/// A fault in the run configuration. Every one of them is fatal and is
/// reported before any image is touched.
#[derive(Debug, Clone, Copy, PartialEq, Eq, Structural)]
pub enum ConfigError {
    /// Neither an image list nor a directory was given.
    MissingInput,
    /// An image list and a directory were given together.
    ConflictingInputs,
    /// The resolution is not a number.
    DpiNotANumber,
    /// The resolution is zero, negative or not finite.
    DpiNotPositive,
    /// The frame width is not an unsigned 32-bit integer.
    ScaleWidthNotAnInteger,
    /// The frame height is not an unsigned 32-bit integer.
    ScaleHeightNotAnInteger,
}

impl ConfigError {
    /// The diagnostic shown to the user for this error.
    pub open spec fn message_text(self) -> Seq<char> {
        match self {
            ConfigError::MissingInput => "One of <imgs> or <dir> must be given"@,
            ConfigError::ConflictingInputs => "Only one of <imgs> and <dir> may be given"@,
            ConfigError::DpiNotANumber => "Value <dpi> could not be parsed as a float"@,
            ConfigError::DpiNotPositive => "Value <dpi> must be a positive finite number"@,
            ConfigError::ScaleWidthNotAnInteger => "Value <scale-width> could not be parsed as an int"@,
            ConfigError::ScaleHeightNotAnInteger => "Value <scale-height> could not be parsed as an int"@,
        }
    }

    /// Renders the diagnostic for this error.
    pub fn message(&self) -> (text: String)
        ensures
            text@ == self.message_text(),
    {
        match self {
            ConfigError::MissingInput => "One of <imgs> or <dir> must be given".to_owned(),
            ConfigError::ConflictingInputs => "Only one of <imgs> and <dir> may be given".to_owned(),
            ConfigError::DpiNotANumber => "Value <dpi> could not be parsed as a float".to_owned(),
            ConfigError::DpiNotPositive => "Value <dpi> must be a positive finite number".to_owned(),
            ConfigError::ScaleWidthNotAnInteger => "Value <scale-width> could not be parsed as an int".to_owned(),
            ConfigError::ScaleHeightNotAnInteger => "Value <scale-height> could not be parsed as an int".to_owned(),
        }
    }
}

/// Why an image could not be turned into a page.
#[derive(Debug, Clone, Copy, PartialEq, Eq, Structural)]
pub enum Cause {
    /// The file could not be read.
    Unreadable,
    /// The path does not name a supported image format.
    UnknownFormat,
    /// The decoder made no image of the bytes: they are not an image of
    /// the format that the path names, or the machine denied the decoder
    /// a thread or a buffer.
    Malformed,
    /// The image has no pixels.
    Empty,
    /// Resizing the image would need a buffer beyond what this machine
    /// can address.
    TooLarge,
}

/// An image that could not be decoded or resized: the offending path, why
/// it failed, and the text of the underlying cause.
#[derive(Debug)]
pub struct ImageDecodeError {
    pub path: String,
    pub cause: Cause,
    pub detail: String,
}

} // verus!
