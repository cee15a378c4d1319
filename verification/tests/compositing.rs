use std::io::Cursor;

use cliquemark::batch::summarize;
use cliquemark::batch::watermark_one;
use cliquemark::batch::BatchConfig;
use cliquemark::batch::FileError;
use cliquemark::batch::load_watermark;
use cliquemark::geometry::Alignment;
use cliquemark::orientation::OrientationTag;

fn png_bytes(width: u32, height: u32, rgba: [u8; 4]) -> Vec<u8> {
    let img = image::RgbaImage::from_pixel(width, height, image::Rgba(rgba));
    let mut out: Vec<u8> = Vec::new();
    image::DynamicImage::ImageRgba8(img)
        .write_to(&mut Cursor::new(&mut out), image::ImageFormat::Png)
        .unwrap();
    out
}

fn config(alignment: Alignment) -> BatchConfig {
    // a quarter of the host image's area, margin 0
    BatchConfig::new(1, 4, 0, 100, alignment).unwrap()
}

#[test]
fn normalize_identity_keeps_dimensions() {
    let mut f = load_watermark("f.png", &png_bytes(30, 20, [1, 2, 3, 255])).unwrap();
    assert_eq!((f.width(), f.height()), (30, 20));
    f.normalize(OrientationTag::NoTransforms);
    assert_eq!((f.width(), f.height()), (30, 20));
    f.normalize(OrientationTag::FlipHorizontal);
    assert_eq!((f.width(), f.height()), (30, 20));
}

#[test]
fn normalize_quarter_turn_swaps_dimensions() {
    let mut f = load_watermark("f.png", &png_bytes(30, 20, [1, 2, 3, 255])).unwrap();
    f.normalize(OrientationTag::Rotate90);
    assert_eq!((f.width(), f.height()), (20, 30));
    f.normalize(OrientationTag::Rotate270);
    assert_eq!((f.width(), f.height()), (30, 20));
}

#[test]
fn load_watermark_decodes_and_validates() {
    let wm = load_watermark("mark.png", &png_bytes(16, 8, [255, 0, 0, 255])).unwrap();
    assert_eq!((wm.width(), wm.height()), (16, 8));
    assert!(matches!(
        load_watermark("mark.txt", &png_bytes(16, 8, [255, 0, 0, 255])),
        Err(FileError::UnsupportedFormat)
    ));
    assert!(matches!(
        load_watermark("mark.png", &vec![0u8, 1, 2, 3]),
        Err(FileError::Decode)
    ));
}

#[test]
fn watermark_lands_at_the_chosen_corner() {
    // blue 64 x 48 host, red 16 x 8 watermark at a quarter of the host's
    // area: the scaled mark is 39 x 20 at the top-left corner
    let host = png_bytes(64, 48, [0, 0, 255, 255]);
    let wm = load_watermark("mark.png", &png_bytes(16, 8, [255, 0, 0, 255])).unwrap();
    let out = watermark_one("photo.png", &host, &wm, &config(Alignment::TopLeft)).unwrap();
    let decoded = image::load_from_memory(&out).unwrap().to_rgba8();
    assert_eq!(decoded.dimensions(), (64, 48));
    assert_eq!(decoded.get_pixel(0, 0), &image::Rgba([255, 0, 0, 255]));
    assert_eq!(decoded.get_pixel(38, 19), &image::Rgba([255, 0, 0, 255]));
    assert_eq!(decoded.get_pixel(39, 20), &image::Rgba([0, 0, 255, 255]));
    assert_eq!(decoded.get_pixel(63, 47), &image::Rgba([0, 0, 255, 255]));
}

#[test]
fn watermark_bottom_right_leaves_top_left_untouched() {
    let host = png_bytes(64, 48, [0, 0, 255, 255]);
    let wm = load_watermark("mark.png", &png_bytes(16, 8, [255, 0, 0, 255])).unwrap();
    let out = watermark_one("photo.png", &host, &wm, &config(Alignment::BottomRight)).unwrap();
    let decoded = image::load_from_memory(&out).unwrap().to_rgba8();
    assert_eq!(decoded.get_pixel(0, 0), &image::Rgba([0, 0, 255, 255]));
    assert_eq!(decoded.get_pixel(63, 47), &image::Rgba([255, 0, 0, 255]));
    // the mark spans 39 x 20 ending at the far corner
    assert_eq!(decoded.get_pixel(64 - 39, 48 - 20), &image::Rgba([255, 0, 0, 255]));
    assert_eq!(decoded.get_pixel(64 - 40, 48 - 21), &image::Rgba([0, 0, 255, 255]));
}

#[test]
fn output_format_follows_the_extension() {
    let host = png_bytes(64, 48, [0, 0, 255, 255]);
    let wm = load_watermark("mark.png", &png_bytes(16, 8, [255, 0, 0, 255])).unwrap();
    let out = watermark_one("photo.png", &host, &wm, &config(Alignment::TopLeft)).unwrap();
    assert_eq!(image::guess_format(&out).unwrap(), image::ImageFormat::Png);
}

#[test]
fn corrupt_file_fails_alone() {
    // a corrupt file in the middle of the batch: the others still produce
    // output, the corrupt one is reported as failed
    let wm = load_watermark("mark.png", &png_bytes(16, 8, [255, 0, 0, 255])).unwrap();
    let cfg = config(Alignment::BottomRight);
    let files: Vec<(String, Vec<u8>)> = vec![
        ("a.png".to_string(), png_bytes(32, 32, [0, 255, 0, 255])),
        ("b.png".to_string(), vec![9u8, 9, 9, 9]),
        ("c.png".to_string(), png_bytes(24, 16, [0, 0, 255, 255])),
    ];
    let mut results: Vec<(String, Result<(), FileError>)> = Vec::new();
    let mut outputs = 0;
    for (name, bytes) in &files {
        match watermark_one(name, bytes, &wm, &cfg) {
            Ok(_) => {
                outputs += 1;
                results.push((name.clone(), Ok(())));
            }
            Err(e) => results.push((name.clone(), Err(e))),
        }
    }
    assert_eq!(outputs, 2);
    let summary = summarize(&results);
    assert_eq!(summary.succeeded, vec!["a.png".to_string(), "c.png".to_string()]);
    assert_eq!(summary.failed, vec!["b.png".to_string()]);
}

#[test]
fn unsupported_extension_is_reported_not_decoded() {
    let wm = load_watermark("mark.png", &png_bytes(16, 8, [255, 0, 0, 255])).unwrap();
    let out = watermark_one("notes.txt", &png_bytes(32, 32, [0, 255, 0, 255]), &wm,
        &config(Alignment::TopLeft));
    assert_eq!(out.unwrap_err(), FileError::UnsupportedFormat);
}

#[test]
fn oversized_watermark_is_rejected() {
    let bytes = png_bytes(1000001, 1, [1, 2, 3, 255]);
    assert!(matches!(load_watermark("wide.png", &bytes), Err(FileError::Oversized)));
}
