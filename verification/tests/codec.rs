use std::io::Cursor;

use pdf_merger::codec::{decode_image, fit, is_resizable, render_page, Raster};
use pdf_merger::geometry::Extent;
use pdf_merger::error::Cause;
use printpdf::image_crate::{DynamicImage, ImageOutputFormat};

fn encoded(width: u32, height: u32, format: ImageOutputFormat) -> Vec<u8> {
    let mut bytes = Vec::new();
    DynamicImage::new_rgb8(width, height).write_to(&mut Cursor::new(&mut bytes), format).unwrap();
    bytes
}

fn frame(width: u32, height: u32) -> Extent {
    Extent { width, height }
}

fn blank(width: u32, height: u32) -> Raster {
    Raster::new(DynamicImage::new_rgb8(width, height))
}

#[test]
fn raster_records_the_extent_of_its_picture() {
    let raster = blank(3, 5);
    assert_eq!(raster.extent(), frame(3, 5));
    assert_eq!(raster.width(), 3);
    assert_eq!(raster.height(), 5);
    assert_eq!((raster.image().width(), raster.image().height()), (3, 5));
}

#[test]
fn decode_image_reads_a_png() {
    let raster = decode_image("scan.png", &encoded(40, 30, ImageOutputFormat::Png)).unwrap();
    assert_eq!(raster.extent(), frame(40, 30));
}

#[test]
fn decode_image_reads_a_jpeg() {
    let raster = decode_image("dir/scan.JPG", &encoded(16, 24, ImageOutputFormat::Jpeg(90))).unwrap();
    assert_eq!(raster.extent(), frame(16, 24));
}

#[test]
fn decode_image_goes_by_the_extension() {
    let png = encoded(8, 8, ImageOutputFormat::Png);
    let error = decode_image("scan.jpg", &png).err().unwrap();
    assert_eq!(error.cause, Cause::Malformed);
    assert_eq!(error.path, "scan.jpg");
    assert!(!error.detail.is_empty());
}

#[test]
fn decode_image_rejects_an_unknown_extension() {
    let png = encoded(8, 8, ImageOutputFormat::Png);
    for path in ["notes.txt", "scan", "scan.", ".png"] {
        let error = decode_image(path, &png).err().unwrap();
        assert_eq!(error.cause, Cause::UnknownFormat, "{path}");
        assert_eq!(error.path, path);
        assert!(!error.detail.is_empty());
    }
}

#[test]
fn decode_image_rejects_bytes_that_are_no_image() {
    for bytes in [&b""[..], &b"not an image"[..], &[0u8; 64][..]] {
        let error = decode_image("scan.png", bytes).err().unwrap();
        assert_eq!(error.cause, Cause::Malformed);
        assert_eq!(error.path, "scan.png");
    }
}

#[test]
fn decode_image_rejects_a_truncated_file() {
    let mut png = encoded(32, 32, ImageOutputFormat::Png);
    png.truncate(png.len() / 2);
    let error = decode_image("scan.png", &png).err().unwrap();
    assert_eq!(error.cause, Cause::Malformed);
}

#[test]
fn fit_shrinks_into_the_frame() {
    let fitted = fit(blank(800, 600), frame(720, 1280), "a.jpg").ok().unwrap();
    assert_eq!(fitted.extent(), frame(720, 540));
    assert_eq!((fitted.image().width(), fitted.image().height()), (720, 540));
    let fitted = fit(blank(1200, 900), frame(720, 1280), "b.jpg").ok().unwrap();
    assert_eq!(fitted.extent(), frame(720, 540));
    let fitted = fit(blank(300, 3000), frame(720, 1280), "c.jpg").ok().unwrap();
    assert_eq!(fitted.extent(), frame(128, 1280));
}

#[test]
fn fit_enlarges_into_the_frame() {
    let fitted = fit(blank(400, 300), frame(720, 1280), "c.jpg").ok().unwrap();
    assert_eq!(fitted.extent(), frame(720, 540));
    let fitted = fit(blank(1, 1), frame(7, 5), "d.png").ok().unwrap();
    assert_eq!(fitted.extent(), frame(5, 5));
}

#[test]
fn fit_keeps_a_picture_of_the_size_of_the_frame() {
    let fitted = fit(blank(72, 128), frame(72, 128), "e.png").ok().unwrap();
    assert_eq!(fitted.extent(), frame(72, 128));
}

#[test]
fn fit_stays_within_the_frame() {
    let frames = [frame(720, 1280), frame(10, 10), frame(1, 1000), frame(333, 7), frame(1, 1)];
    let sizes = [(800, 600), (3, 1000), (1000, 3), (1, 1), (17, 19), (640, 480)];
    for f in frames {
        for (w, h) in sizes {
            let fitted = fit(blank(w, h), f, "x.png").ok().unwrap().extent();
            assert!(1 <= fitted.width && fitted.width <= f.width, "{w}x{h} into {f:?}");
            assert!(1 <= fitted.height && fitted.height <= f.height, "{w}x{h} into {f:?}");
            assert!(fitted.width == f.width || fitted.height == f.height, "{w}x{h} into {f:?}");
        }
    }
}

#[test]
fn fit_keeps_the_aspect_ratio() {
    let frames = [
        frame(720, 1280),
        frame(100, 100),
        frame(1, 1),
        frame(7, 3),
        frame(3000, 2),
        frame(0, 50),
        frame(50, 0),
        frame(0, 0),
    ];
    let sizes = [
        (800u32, 600u32),
        (600, 800),
        (1, 1),
        (5000, 1),
        (1, 5000),
        (1000, 3),
        (3, 1000),
        (333, 334),
        (720, 1280),
        (97, 89),
    ];
    for f in frames {
        for (w, h) in sizes {
            let fitted = fit(blank(w, h), f, "x.png").ok().unwrap().extent();
            let skew = fitted.width as i64 * h as i64 - fitted.height as i64 * w as i64;
            assert!(skew.abs() < w.max(h) as i64, "{w}x{h} into {f:?} gives {fitted:?}");
        }
    }
}

#[test]
fn fit_gives_the_same_extent_for_the_same_sizes() {
    let once = fit(blank(800, 600), frame(720, 1280), "a.png").ok().unwrap().extent();
    let again = fit(blank(800, 600), frame(720, 1280), "b.png").ok().unwrap().extent();
    assert_eq!(once, again);
}

#[test]
fn fit_into_an_empty_frame_leaves_one_pixel() {
    let fitted = fit(blank(800, 600), frame(0, 0), "a.png").ok().unwrap();
    assert_eq!(fitted.extent(), frame(1, 1));
    let fitted = fit(blank(800, 600), frame(0, 1280), "a.png").ok().unwrap();
    assert_eq!(fitted.extent(), frame(1, 1));
}

#[test]
fn fit_rejects_a_picture_without_pixels() {
    for (w, h) in [(0, 0), (0, 5), (5, 0)] {
        let error = fit(blank(w, h), frame(720, 1280), "void.png").err().unwrap();
        assert_eq!(error.cause, Cause::Empty);
        assert_eq!(error.path, "void.png");
        assert_eq!(error.detail, "the image has no pixels");
    }
}

#[test]
fn fit_rejects_what_cannot_be_addressed() {
    let error = fit(blank(2, 2), frame(u32::MAX, u32::MAX), "huge.png").err().unwrap();
    assert_eq!(error.cause, Cause::TooLarge);
    assert_eq!(error.path, "huge.png");
    assert_eq!(error.detail, "the resized image would not fit in memory");
}

#[test]
fn is_resizable_tells_when_fit_succeeds() {
    assert!(is_resizable(frame(800, 600), frame(720, 1280)));
    assert!(is_resizable(frame(1, 1), frame(0, 0)));
    assert!(!is_resizable(frame(0, 600), frame(720, 1280)));
    assert!(!is_resizable(frame(800, 0), frame(720, 1280)));
    assert!(!is_resizable(frame(800, 600), frame(u32::MAX, u32::MAX)));
    assert!(!is_resizable(frame(u32::MAX, 1), frame(1, u32::MAX)));
    let side = 1u32 << ((isize::BITS - 1 - 4) / 2);
    assert!(!is_resizable(frame(1, 1), frame(side, 2 * side)));
}

#[test]
fn raster_holds_the_picture_handed_in() {
    let mut picture = DynamicImage::new_rgb8(2, 2);
    picture.as_mut_rgb8().unwrap().put_pixel(1, 0, printpdf::image_crate::Rgb([9, 8, 7]));
    let raster = Raster::new(picture.clone());
    assert_eq!(raster.image(), &picture);
}

#[test]
fn decode_image_reads_a_jpeg_that_is_decoded_on_threads() {
    let raster = decode_image("wide.jpg", &encoded(640, 20, ImageOutputFormat::Jpeg(90))).unwrap();
    assert_eq!(raster.extent(), frame(640, 20));
}

#[test]
fn render_page_decodes_and_fits() {
    let fitted = render_page("a.png", &encoded(800, 600, ImageOutputFormat::Png), frame(720, 1280));
    assert_eq!(fitted.ok().unwrap().extent(), frame(720, 540));
}

#[test]
fn render_page_reports_the_path() {
    let error = render_page("dir/broken.png", b"broken", frame(720, 1280)).err().unwrap();
    assert_eq!(error.path, "dir/broken.png");
    assert_eq!(error.cause, Cause::Malformed);
    let error = render_page("notes.txt", b"text", frame(720, 1280)).err().unwrap();
    assert_eq!(error.path, "notes.txt");
    assert_eq!(error.cause, Cause::UnknownFormat);
}
