use kenja_spider::address::Encoding;
use kenja_spider::documents::Size;
use kenja_spider::extract::ElementError;
use kenja_spider::normalize::{fit, resized_img, Picture};

fn encoded(picture: image::DynamicImage, format: image::ImageFormat) -> Vec<u8> {
    let mut out = std::io::Cursor::new(Vec::new());
    picture.write_to(&mut out, format).unwrap();
    out.into_inner()
}

fn gradient(width: u32, height: u32) -> image::DynamicImage {
    let picture = image::RgbImage::from_fn(width, height, |x, y| {
        image::Rgb([(x * 7 % 256) as u8, (y * 13 % 256) as u8, ((x + y) % 256) as u8])
    });
    image::DynamicImage::ImageRgb8(picture)
}

fn png(width: u32, height: u32) -> Vec<u8> {
    encoded(gradient(width, height), image::ImageFormat::Png)
}

fn dimensions(body: &[u8]) -> (u32, u32) {
    let picture = image::load_from_memory(body).unwrap();
    (picture.width(), picture.height())
}

#[test]
fn image_within_bounds_keeps_its_size() {
    let out = resized_img(&png(10, 20), Size { w: 256, h: 512 }, Encoding::Png).unwrap();
    assert_eq!((out.source_width, out.source_height), (10, 20));
    assert_eq!((out.width, out.height), (10, 20));
    assert_eq!(dimensions(&out.body), (10, 20));
}

#[test]
fn image_exactly_at_the_bounds_keeps_its_size() {
    let out = resized_img(&png(256, 512), Size { w: 256, h: 512 }, Encoding::Png).unwrap();
    assert_eq!((out.width, out.height), (256, 512));
}

#[test]
fn image_within_bounds_keeps_its_pixels() {
    let source = gradient(31, 17);
    let body = encoded(source.clone(), image::ImageFormat::Png);
    let out = resized_img(&body, Size { w: 31, h: 17 }, Encoding::Png).unwrap();
    let kept = image::load_from_memory(&out.body).unwrap();
    assert_eq!(kept.to_rgb8().into_raw(), source.to_rgb8().into_raw());
}

#[test]
fn image_too_wide_is_scaled_down() {
    let out = resized_img(&png(100, 50), Size { w: 50, h: 50 }, Encoding::Png).unwrap();
    assert_eq!((out.source_width, out.source_height), (100, 50));
    assert_eq!((out.width, out.height), (50, 25));
    assert_eq!(dimensions(&out.body), (50, 25));
}

#[test]
fn image_too_high_is_scaled_down() {
    let out = resized_img(&png(10, 100), Size { w: 50, h: 50 }, Encoding::Png).unwrap();
    assert_eq!((out.width, out.height), (5, 50));
}

#[test]
fn image_one_pixel_over_is_scaled_down() {
    let out = resized_img(&png(257, 512), Size { w: 256, h: 512 }, Encoding::Png).unwrap();
    assert_eq!((out.width, out.height), (256, 510));
    // 256 * 512 / 513 is 255.5 and a little: the width rounds back to 256.
    let out = resized_img(&png(256, 513), Size { w: 256, h: 512 }, Encoding::Png).unwrap();
    assert_eq!((out.width, out.height), (256, 512));
}

#[test]
fn scaling_keeps_the_aspect_ratio() {
    let out = resized_img(&png(300, 200), Size { w: 90, h: 90 }, Encoding::Png).unwrap();
    assert_eq!((out.width, out.height), (90, 60));
    let out = resized_img(&png(200, 300), Size { w: 90, h: 90 }, Encoding::Png).unwrap();
    assert_eq!((out.width, out.height), (60, 90));
}

#[test]
fn scaled_image_fits_the_bounds() {
    let bounds = [(1u32, 1u32), (3, 7), (64, 64), (1, 400), (400, 1), (99, 100)];
    for (w, h) in bounds {
        let out = resized_img(&png(123, 77), Size { w, h }, Encoding::Png).unwrap();
        assert!(out.width <= w.max(123) && out.height <= h.max(77));
        if w < 123 || h < 77 {
            assert!(out.width <= w && out.height <= h, "{}x{} in {}x{}", out.width, out.height, w, h);
        }
        assert!(out.width >= 1 && out.height >= 1);
    }
}

#[test]
fn no_image_is_scaled_below_one_pixel() {
    // A bound of zero cannot be met: the image comes out one pixel wide.
    let out = resized_img(&png(10, 10), Size { w: 0, h: 5 }, Encoding::Png).unwrap();
    assert_eq!((out.width, out.height), (1, 1));
    let out = resized_img(&png(1000, 2), Size { w: 100, h: 100 }, Encoding::Png).unwrap();
    assert_eq!((out.width, out.height), (100, 1));
}

#[test]
fn fit_decides_by_width_and_height() {
    let size = Size { w: 40, h: 30 };
    let small = resized_img(&png(40, 30), Size { w: 1000, h: 1000 }, Encoding::Png).unwrap();
    assert_eq!((small.width, small.height), (40, 30));
    let out = resized_img(&png(41, 30), size, Encoding::Png).unwrap();
    assert!(out.width <= 40 && out.height <= 30);
    assert_ne!((out.width, out.height), (41, 30));
}

#[test]
fn written_in_the_encoding_asked_for() {
    let size = Size { w: 16, h: 16 };
    let body = png(32, 32);
    let as_png = resized_img(&body, size, Encoding::Png).unwrap().body;
    assert_eq!(&as_png[..8], b"\x89PNG\r\n\x1a\n");
    let as_jpeg = resized_img(&body, size, Encoding::Jpeg).unwrap().body;
    assert_eq!(&as_jpeg[..3], b"\xff\xd8\xff");
    let as_webp = resized_img(&body, size, Encoding::WebP).unwrap().body;
    assert_eq!(&as_webp[..4], b"RIFF");
    assert_eq!(&as_webp[8..12], b"WEBP");
    for out in [as_png, as_jpeg, as_webp] {
        assert_eq!(dimensions(&out), (16, 16));
    }
}

#[test]
fn format_is_read_off_the_bytes() {
    let jpeg = encoded(gradient(20, 10), image::ImageFormat::Jpeg);
    let out = resized_img(&jpeg, Size { w: 10, h: 10 }, Encoding::Png).unwrap();
    assert_eq!((out.width, out.height), (10, 5));
    let webp = encoded(gradient(20, 10), image::ImageFormat::WebP);
    let out = resized_img(&webp, Size { w: 100, h: 100 }, Encoding::Jpeg).unwrap();
    assert_eq!((out.width, out.height), (20, 10));
}

#[test]
fn output_is_not_the_input() {
    let body = png(64, 64);
    let out = resized_img(&body, Size { w: 8, h: 8 }, Encoding::Png).unwrap();
    assert_ne!(out.body, body);
    assert!(!out.body.is_empty());
}

#[test]
fn bytes_that_are_no_image_do_not_decode() {
    let size = Size { w: 256, h: 512 };
    assert_eq!(resized_img(b"<html></html>", size, Encoding::Png).err(), Some(ElementError::Undecodable));
    assert_eq!(resized_img(b"", size, Encoding::Jpeg).err(), Some(ElementError::Undecodable));
    let mut cut = png(50, 50);
    cut.truncate(40);
    assert_eq!(resized_img(&cut, size, Encoding::Png).err(), Some(ElementError::Undecodable));
}

#[test]
fn image_too_large_for_its_encoding_is_not_written() {
    // JPEG cannot hold more than 65535 pixels in a row.
    let wide = image::DynamicImage::ImageLuma8(image::GrayImage::new(65536, 1));
    let body = encoded(wide, image::ImageFormat::Png);
    let size = Size { w: 70000, h: 10 };
    assert_eq!(resized_img(&body, size, Encoding::Jpeg).err(), Some(ElementError::Unencodable));
    assert!(resized_img(&body, size, Encoding::Png).is_ok());
}

#[test]
fn picture_reports_the_size_it_was_fitted_to() {
    // `fit` is reached through `resized_img`; its type is part of the interface.
    let _: fn(Picture, Size) -> Picture = fit;
    let out = resized_img(&png(9, 3), Size { w: 3, h: 3 }, Encoding::Png).unwrap();
    assert_eq!((out.width, out.height), (3, 1));
}

#[test]
fn size_after_scaling_depends_on_the_sizes_alone() {
    let size = Size { w: 90, h: 70 };
    let flat = image::DynamicImage::ImageLuma8(image::GrayImage::new(301, 199));
    let sources = [
        png(301, 199),
        encoded(gradient(301, 199), image::ImageFormat::Jpeg),
        encoded(gradient(301, 199), image::ImageFormat::WebP),
        encoded(flat, image::ImageFormat::Png),
    ];
    for body in sources {
        for encoding in [Encoding::Png, Encoding::Jpeg, Encoding::WebP] {
            let out = resized_img(&body, size, encoding).unwrap();
            assert_eq!((out.source_width, out.source_height), (301, 199));
            assert_eq!((out.width, out.height), (90, 60));
            assert_eq!(dimensions(&out.body), (90, 60));
        }
    }
}
