//! The image codec: decoding a file's bytes and fitting the picture into
//! the scaling frame.
//!
//! Pixels are handled by the `image` crate, as re-exported by `printpdf`.
//! An image is opaque to the verifier; what the library reasons about is
//! its extent in pixels.

use vstd::prelude::*;
use printpdf::image_crate::{DynamicImage, GenericImageView, ImageError, ImageFormat};
use printpdf::image_crate::imageops::FilterType;
use crate::error::{Cause, ImageDecodeError};
use crate::geometry::{keeps_aspect, within, Extent};

verus! {

/// `image::DynamicImage`, a decoded image. Its pixels are opaque here.
#[verifier::external_type_specification]
#[verifier::external_body]
pub struct ExDynamicImage(DynamicImage);

/// `image::ImageFormat`, the format of an encoded image. It is only
/// passed from one codec call to the next.
#[verifier::external_type_specification]
#[verifier::external_body]
pub struct ExImageFormat(ImageFormat);

/// `image::ImageError`, the error of a codec call. It is only turned
/// into text.
#[verifier::external_type_specification]
#[verifier::external_body]
pub struct ExImageError(ImageError);

/// The width and height of an image in pixels, as
/// `GenericImageView::dimensions` returns them.
pub uninterp spec fn extent_of(image: DynamicImage) -> (u32, u32);

/// The image format that `ImageFormat::from_path` reads off the extension
/// of a path, if the extension names a format that the codec knows. The
/// path is only read as text, by the path syntax of the platform that the
/// program is built for.
pub uninterp spec fn format_named(path: Seq<char>) -> Option<ImageFormat>;

/// The width and height of the picture that bytes hold in a format: the
/// extent of the image that `image::load_from_memory_with_format` makes of
/// them where it makes one. `None` stands for bytes of which it makes no
/// image, whatever the machine offers it.
pub uninterp spec fn decoded_extent(bytes: Seq<u8>, format: ImageFormat) -> Option<(u32, u32)>;

/// The extent of the picture that the bytes of a file hold, in the format
/// that the path of the file names.
pub open spec fn picture_extent(path: Seq<char>, bytes: Seq<u8>) -> Option<(u32, u32)> {
    match format_named(path) {
        Some(format) => decoded_extent(bytes, format),
        None => None,
    }
}

/// The width and height that `DynamicImage::resize` gives an image of
/// `width` by `height` pixels when asked to fit it into `max_width` by
/// `max_height`.
pub uninterp spec fn resized_extent(width: u32, height: u32, max_width: u32, max_height: u32) -> (
    u32,
    u32,
);

/// The number of bytes that the codec spends on one pixel of a resize
/// buffer: four channels of four bytes.
pub const BYTES_PER_PIXEL: u64 = 16;

/// Whether a buffer of `width` by `height` pixels can be addressed on this
/// machine.
pub open spec fn addressable(width: int, height: int) -> bool {
    BYTES_PER_PIXEL * (width * height) <= isize::MAX
}

/// Whether an image of extent `source` can be resized into `frame`: it
/// has pixels, and both the intermediate buffer (source width by target
/// height) and the result can be addressed. The target is never larger
/// than the frame, and never smaller than one pixel either way.
pub open spec fn resizable(source: Extent, frame: Extent) -> bool {
    &&& source.width >= 1
    &&& source.height >= 1
    &&& addressable(source.width as int, vstd::math::max(frame.height as int, 1))
    &&& addressable(
        vstd::math::max(frame.width as int, 1),
        vstd::math::max(frame.height as int, 1),
    )
}

/// `ImageFormat::from_path`: the image format that the extension of
/// `path` names, or an error if it names none that is supported. The
/// lookup goes by the text of the path alone, and the contract names its
/// result.
#[verifier::external_body]
fn format_of(path: &str) -> (r: Result<ImageFormat, ImageError>)
    ensures
        r matches Ok(format) ==> format_named(path@) == Some(format),
        r is Err ==> format_named(path@) is None,
{
    ImageFormat::from_path(path)
}

/// `image::load_from_memory_with_format`: decodes `bytes` as an image of
/// format `format`.
///
/// An image that comes back is the picture that the bytes hold, and the
/// contract names its extent. An error claims nothing, because the
/// decoders also report what the machine denied them: the JPEG decoder
/// starts worker threads for all but small pictures and hands on the
/// error of a thread that could not be started, and the GIF decoder
/// reports a buffer that it could not reserve. So an error does not show
/// that the bytes hold no picture.
#[verifier::external_body]
fn decode(bytes: &[u8], format: ImageFormat) -> (r: Result<DynamicImage, ImageError>)
    ensures
        r matches Ok(image) ==> decoded_extent(bytes@, format) == Some(extent_of(image)),
{
    printpdf::image_crate::load_from_memory_with_format(bytes, format)
}

/// `GenericImageView::dimensions` on a `DynamicImage`: the width and
/// height of the image.
#[verifier::external_body]
fn measure(image: &DynamicImage) -> (r: (u32, u32))
    ensures
        r == extent_of(*image),
{
    image.dimensions()
}

/// `DynamicImage::resize` with the nearest-neighbour filter: a new image,
/// scaled with its aspect ratio kept to the largest size that fits into
/// `max_width` by `max_height`.
///
/// The contract names the new extent and claims of it what the crate
/// documents and its source shows. Each side is the source's side times
/// the lesser of the two scaling ratios, rounded to a whole pixel and
/// raised to one pixel where it would vanish. So each side is at least
/// one pixel and no larger than the frame's side, unless that is zero,
/// and the aspect ratio is kept as far as whole pixels allow.
///
/// Buffers that cannot be addressed, on which the crate panics, are left
/// out. Images without pixels are left out as well: the crate does resize
/// them, but the claims above are made of pictures that have pixels, and
/// the library makes no page of one that has none.
#[verifier::external_body]
fn resize(image: &DynamicImage, max_width: u32, max_height: u32) -> (r: DynamicImage)
    requires
        resizable(
            Extent { width: extent_of(*image).0, height: extent_of(*image).1 },
            Extent { width: max_width, height: max_height },
        ),
    ensures
        extent_of(r) == resized_extent(
            extent_of(*image).0,
            extent_of(*image).1,
            max_width,
            max_height,
        ),
        within(
            Extent { width: extent_of(r).0, height: extent_of(r).1 },
            Extent { width: max_width, height: max_height },
        ),
        keeps_aspect(
            Extent { width: extent_of(*image).0, height: extent_of(*image).1 },
            Extent { width: extent_of(r).0, height: extent_of(r).1 },
        ),
{
    image.resize(max_width, max_height, FilterType::Nearest)
}

/// `Display` for `ImageError`: the text of a codec error. Nothing is
/// claimed of the text: an error of the operating system is worded by
/// the platform.
#[verifier::external_body]
fn describe(error: &ImageError) -> (text: String) {
    error.to_string()
}

/// A decoded picture together with its extent.
pub struct Raster {
    image: DynamicImage,
    extent: Extent,
}

/// What a [`Raster`] stands for: the picture, whose pixels are opaque,
/// and its extent.
pub struct RasterView {
    pub picture: DynamicImage,
    pub extent: Extent,
}

impl View for Raster {
    type V = RasterView;

    closed spec fn view(&self) -> RasterView {
        RasterView { picture: self.image, extent: self.extent }
    }
}

impl Raster {
    /// The invariant of the type: the recorded extent is that of the
    /// picture.
    #[verifier::type_invariant]
    spec fn measured(self) -> bool {
        (self.extent.width, self.extent.height) == extent_of(self.image)
    }

    /// Wraps a decoded picture and records its extent.
    pub fn new(image: DynamicImage) -> (raster: Raster)
        ensures
            raster@.picture == image,
            (raster@.extent.width, raster@.extent.height) == extent_of(image),
    {
        let (width, height) = measure(&image);
        Raster { image, extent: Extent { width, height } }
    }

    /// The extent of the picture.
    pub fn extent(&self) -> (extent: Extent)
        ensures
            extent == self@.extent,
            (extent.width, extent.height) == extent_of(self@.picture),
    {
        proof {
            use_type_invariant(self);
        }
        self.extent
    }

    /// The width of the picture in pixels.
    pub fn width(&self) -> (width: u32)
        ensures
            width == self@.extent.width,
    {
        self.extent.width
    }

    /// The height of the picture in pixels.
    pub fn height(&self) -> (height: u32)
        ensures
            height == self@.extent.height,
    {
        self.extent.height
    }

    /// The picture itself, for the PDF encoder.
    pub fn image(&self) -> (image: &DynamicImage)
        ensures
            *image == self@.picture,
            extent_of(*image) == (self@.extent.width, self@.extent.height),
    {
        proof {
            use_type_invariant(self);
        }
        &self.image
    }
}

/// The detail text of an image without pixels.
pub open spec fn empty_detail() -> Seq<char> {
    "the image has no pixels"@
}

/// The detail text of an image whose resize buffers cannot be addressed.
pub open spec fn too_large_detail() -> Seq<char> {
    "the resized image would not fit in memory"@
}

/// Whether a buffer of `width` by `height` pixels can be addressed on this
/// machine.
fn is_addressable(width: u32, height: u32) -> (r: bool)
    ensures
        r == addressable(width as int, height as int),
{
    assert(width * height <= 0xffff_fffe_0000_0001) by (nonlinear_arith)
        requires
            0 <= width <= 0xffff_ffff,
            0 <= height <= 0xffff_ffff,
    ;
    let pixels: u128 = (width as u128) * (height as u128);
    assert(BYTES_PER_PIXEL == 16);
    16 * pixels <= isize::MAX as u128
}

/// Whether an image of extent `source` can be resized into `frame`.
pub fn is_resizable(source: Extent, frame: Extent) -> (r: bool)
    ensures
        r == resizable(source, frame),
{
    let target_width: u32 = if frame.width == 0 { 1 } else { frame.width };
    let target_height: u32 = if frame.height == 0 { 1 } else { frame.height };
    source.width >= 1 && source.height >= 1 && is_addressable(source.width, target_height)
        && is_addressable(target_width, target_height)
}

/// Decodes the bytes of the file at `path`. The format is taken from the
/// extension of the path, as it is when the codec opens a file itself.
///
/// A path whose extension names no known format is refused, and only
/// such a path is refused as one. Whether the decoder then delivers is
/// for the decoder to say, and every failure of it is reported as
/// malformed bytes. A raster that is returned shows the picture that the
/// bytes hold; bytes that hold none give an error.
pub fn decode_image(path: &str, bytes: &[u8]) -> (r: Result<Raster, ImageDecodeError>)
    ensures
        r matches Ok(raster) ==> picture_extent(path@, bytes@) == Some(
            (raster@.extent.width, raster@.extent.height),
        ),
        picture_extent(path@, bytes@) is None ==> r is Err,
        r matches Err(e) ==> {
            &&& e.path@ == path@
            &&& e.cause == Cause::UnknownFormat || e.cause == Cause::Malformed
            &&& e.cause == Cause::UnknownFormat <==> format_named(path@) is None
        },
{
    match format_of(path) {
        Err(error) => Err(
            ImageDecodeError {
                path: path.to_owned(),
                cause: Cause::UnknownFormat,
                detail: describe(&error),
            },
        ),
        Ok(format) => match decode(bytes, format) {
            Err(error) => Err(
                ImageDecodeError {
                    path: path.to_owned(),
                    cause: Cause::Malformed,
                    detail: describe(&error),
                },
            ),
            Ok(image) => Ok(Raster::new(image)),
        },
    }
}

/// What fitting a picture of extent `source` into `frame` comes to: the
/// new extent, or why there is none. A picture without pixels makes no
/// page, and one whose resize buffers cannot be addressed is too large.
pub open spec fn fitting(source: Extent, frame: Extent) -> Result<Extent, Cause> {
    if source.width == 0 || source.height == 0 {
        Err(Cause::Empty)
    } else if !resizable(source, frame) {
        Err(Cause::TooLarge)
    } else {
        let extent = resized_extent(source.width, source.height, frame.width, frame.height);
        Ok(Extent { width: extent.0, height: extent.1 })
    }
}

/// The detail text that goes with a failure to fit.
pub open spec fn fitting_detail(cause: Cause) -> Seq<char> {
    if cause == Cause::Empty {
        empty_detail()
    } else {
        too_large_detail()
    }
}

/// Resizes a decoded picture, by nearest-neighbour sampling, to the
/// largest size that fits into `frame` with its aspect ratio kept; a
/// picture smaller than the frame is enlarged. `path` is the file that
/// the picture came from.
///
/// The resize succeeds exactly when the picture has pixels and its
/// buffers can be addressed. The new extent is the one that the codec
/// computes; each side is at least one pixel and no larger than the
/// frame's side, unless that side of the frame is zero, and the aspect
/// ratio is kept as far as whole pixels allow.
pub fn fit(raster: Raster, frame: Extent, path: &str) -> (r: Result<Raster, ImageDecodeError>)
    ensures
        match fitting(raster@.extent, frame) {
            Ok(extent) => {
                &&& r matches Ok(fitted)
                &&& fitted@.extent == extent
                &&& within(extent, frame)
                &&& keeps_aspect(raster@.extent, extent)
            },
            Err(cause) => {
                &&& r matches Err(e)
                &&& e.path@ == path@
                &&& e.cause == cause
                &&& e.detail@ == fitting_detail(cause)
            },
        },
{
    proof {
        use_type_invariant(&raster);
    }
    let source = raster.extent();
    if source.width == 0 || source.height == 0 {
        Err(
            ImageDecodeError {
                path: path.to_owned(),
                cause: Cause::Empty,
                detail: "the image has no pixels".to_owned(),
            },
        )
    } else if !is_resizable(source, frame) {
        Err(
            ImageDecodeError {
                path: path.to_owned(),
                cause: Cause::TooLarge,
                detail: "the resized image would not fit in memory".to_owned(),
            },
        )
    } else {
        let resized = resize(&raster.image, frame.width, frame.height);
        Ok(Raster::new(resized))
    }
}

/// What turning the bytes of the file at a path into the picture of a
/// page comes to, where the decoder delivers: the extent of the picture
/// that the bytes hold, fitted into the frame, or why there is no page.
pub open spec fn rendering(path: Seq<char>, bytes: Seq<u8>, frame: Extent) -> Result<
    Extent,
    Cause,
> {
    match format_named(path) {
        None => Err(Cause::UnknownFormat),
        Some(format) => match decoded_extent(bytes, format) {
            None => Err(Cause::Malformed),
            Some(extent) => fitting(Extent { width: extent.0, height: extent.1 }, frame),
        },
    }
}

/// Turns the bytes of the file at `path` into the picture of a page:
/// decodes them and fits the picture into `frame`.
///
/// The outcome is the one that [`rendering`] gives, with one exception: a
/// decoder that fails on bytes that do hold a picture, because the
/// machine denied it a thread or a buffer, is reported as malformed
/// bytes. So a picture that is returned is the fitted picture of these
/// bytes, within the frame and with the aspect ratio kept; an error
/// other than that of malformed bytes comes on exactly the inputs that
/// call for it; and where no page is due, none is returned.
pub fn render_page(path: &str, bytes: &[u8], frame: Extent) -> (r: Result<Raster, ImageDecodeError>)
    ensures
        r matches Ok(fitted) ==> {
            &&& rendering(path@, bytes@, frame) == Ok::<Extent, Cause>(fitted@.extent)
            &&& within(fitted@.extent, frame)
            &&& picture_extent(path@, bytes@) matches Some(source) && keeps_aspect(
                Extent { width: source.0, height: source.1 },
                fitted@.extent,
            )
        },
        rendering(path@, bytes@, frame) is Err ==> r is Err,
        r matches Err(e) ==> {
            &&& e.path@ == path@
            &&& rendering(path@, bytes@, frame) == Err::<Extent, Cause>(e.cause) || (e.cause
                == Cause::Malformed && format_named(path@) is Some)
        },
{
    match decode_image(path, bytes) {
        Err(e) => Err(e),
        Ok(raster) => fit(raster, frame, path),
    }
}

} // verus!
