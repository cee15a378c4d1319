use cliquemark::batch::BatchConfig;
use cliquemark::batch::ConfigError;
use cliquemark::batch::batch_geometry;
use cliquemark::files::filter_image_files;
use cliquemark::files::is_image_file;
use cliquemark::geometry::Alignment;
use cliquemark::geometry::calculate_watermark_position;
use cliquemark::geometry::placement_offsets;
use cliquemark::outdir::allocate_output_dir;
use cliquemark::outdir::decimal_string;
use cliquemark::outdir::target_dir_name;
use cliquemark::progress::ProgressTracker;
use cliquemark::progress::Signal;
use cliquemark::scaling::floor_sqrt;
use cliquemark::scaling::rounded_sqrt;
use cliquemark::scaling::scaled_margin;
use cliquemark::scaling::scaled_watermark_dims;

fn config(rel_num: u64, rel_den: u64, margin: u32, preview_w: u32, alignment: Alignment) -> BatchConfig {
    BatchConfig::new(rel_num, rel_den, margin, preview_w, alignment).unwrap()
}

#[test]
fn placement_top_left_is_margin() {
    let p = placement_offsets(800, 600, 100, 50, 7, 7, Alignment::TopLeft);
    assert_eq!((p.x, p.y), (7, 7));
}

#[test]
fn placement_bottom_right_is_far_edge_minus_margin() {
    let p = placement_offsets(800, 600, 100, 50, 7, 7, Alignment::BottomRight);
    assert_eq!((p.x, p.y), (800 - 100 - 7, 600 - 50 - 7));
}

#[test]
fn placement_mixed_corners() {
    let tr = placement_offsets(800, 600, 100, 50, 7, 9, Alignment::TopRight);
    assert_eq!((tr.x, tr.y), (800 - 100 - 7, 9));
    let bl = placement_offsets(800, 600, 100, 50, 7, 9, Alignment::BottomLeft);
    assert_eq!((bl.x, bl.y), (7, 600 - 50 - 9));
}

#[test]
fn placement_can_go_negative_when_watermark_exceeds_image() {
    let p = placement_offsets(50, 50, 100, 100, 0, 0, Alignment::BottomRight);
    assert_eq!((p.x, p.y), (-50, -50));
}

#[test]
fn sqrt_rounds_to_nearest() {
    assert_eq!(floor_sqrt(0), 0);
    assert_eq!(floor_sqrt(15), 3);
    assert_eq!(floor_sqrt(16), 4);
    assert_eq!(rounded_sqrt(0), 0);
    assert_eq!(rounded_sqrt(2), 1);
    // 2.5^2 = 6.25: sqrt(6) < 2.5 rounds down, sqrt(7) > 2.5 rounds up
    assert_eq!(rounded_sqrt(6), 2);
    assert_eq!(rounded_sqrt(7), 3);
    assert_eq!(rounded_sqrt(1536), 39);
    assert_eq!(rounded_sqrt(384), 20);
}

#[test]
fn scaled_dims_solve_area_and_aspect() {
    // quarter of a 200 x 100 image is 5000 px^2; a 2:1 watermark becomes
    // 100 x 50: sqrt(5000 * 2) = 100, sqrt(5000 / 2) = 50
    let d = scaled_watermark_dims(1, 4, 200, 100, 100, 50);
    assert_eq!((d.width, d.height), (100, 50));
}

#[test]
fn doubling_image_doubles_watermark() {
    let d1 = scaled_watermark_dims(1, 4, 200, 100, 100, 50);
    let d2 = scaled_watermark_dims(1, 4, 400, 200, 100, 50);
    assert_eq!((d2.width, d2.height), (2 * d1.width, 2 * d1.height));
    // an uneven case stays within one pixel of doubling
    let e1 = scaled_watermark_dims(3, 7, 641, 479, 123, 77);
    let e2 = scaled_watermark_dims(3, 7, 1282, 958, 123, 77);
    assert!((e2.width as i64 - 2 * e1.width as i64).abs() <= 1);
    assert!((e2.height as i64 - 2 * e1.height as i64).abs() <= 1);
}

#[test]
fn aspect_ratio_kept_within_rounding() {
    // the scaled 39 x 20 watermark keeps the 16:8 ratio within a pixel per
    // dimension: |39*8 - 20*16| <= 16 + 8
    let d = scaled_watermark_dims(1, 4, 64, 48, 16, 8);
    assert_eq!((d.width, d.height), (39, 20));
    let lhs = (d.width as i64) * 8 - (d.height as i64) * 16;
    assert!(lhs.abs() <= 16 + 8);
}

#[test]
fn margin_scales_by_host_width() {
    // margin 10 chosen on a 100-wide preview puts 20 px on a 200-wide host
    assert_eq!(scaled_margin(10, 100, 200), 20);
    // rounding to nearest: 10 * 150 / 100 = 15, 10 * 155 / 100 = 15.5 -> 16
    assert_eq!(scaled_margin(10, 100, 150), 15);
    assert_eq!(scaled_margin(10, 100, 155), 16);
    assert_eq!(scaled_margin(0, 100, 200), 0);
}

#[test]
fn batch_geometry_bottom_right_exact() {
    let cfg = config(1, 4, 0, 100, Alignment::BottomRight);
    let g = batch_geometry(&cfg, 200, 100, 100, 50);
    assert_eq!((g.width, g.height), (100, 50));
    assert_eq!((g.x, g.y), (100, 50));
}

#[test]
fn batch_geometry_margin_applied() {
    let cfg = config(1, 4, 10, 100, Alignment::TopLeft);
    let g = batch_geometry(&cfg, 200, 100, 100, 50);
    assert_eq!((g.x, g.y), (20, 20));
}

#[test]
fn config_validation_order_and_errors() {
    assert_eq!(
        BatchConfig::new(0, 4, 0, 100, Alignment::TopLeft).unwrap_err(),
        ConfigError::SurfaceArea
    );
    assert_eq!(
        BatchConfig::new(5, 4, 0, 100, Alignment::TopLeft).unwrap_err(),
        ConfigError::SurfaceArea
    );
    assert_eq!(
        BatchConfig::new(1, 4, 1000001, 100, Alignment::TopLeft).unwrap_err(),
        ConfigError::Margin
    );
    assert_eq!(
        BatchConfig::new(1, 4, 0, 0, Alignment::TopLeft).unwrap_err(),
        ConfigError::PreviewWidth
    );
    assert!(BatchConfig::new(1, 1, 0, 1, Alignment::TopLeft).is_ok());
}

#[test]
fn preview_geometry_matches_batch_formula() {
    // decoded preview 200 x 100, watermark 100 x 50, rendered 400 x 200,
    // scale 1.00, margin 10: the ratios give a 200 x 100 overlay and the
    // margin doubles with the rendering
    let g = calculate_watermark_position(200, 100, 100, 50, 400, 200, 100, 10, Alignment::TopLeft);
    assert_eq!((g.width, g.height), (200, 100));
    assert_eq!((g.x, g.y), (20, 20));
    // scale 0.50 halves both dimensions
    let h = calculate_watermark_position(200, 100, 100, 50, 400, 200, 50, 10, Alignment::TopLeft);
    assert_eq!((h.width, h.height), (100, 50));
}

#[test]
fn preview_geometry_without_image_degenerates() {
    // no decoded image yet: zero-size overlay at the unscaled margin
    let g = calculate_watermark_position(0, 0, 100, 50, 400, 200, 100, 10, Alignment::TopLeft);
    assert_eq!((g.width, g.height), (0, 0));
    assert_eq!((g.x, g.y), (10, 10));
}

#[test]
fn preview_geometry_bottom_right() {
    let g = calculate_watermark_position(200, 100, 100, 50, 400, 200, 100, 0, Alignment::BottomRight);
    assert_eq!((g.x, g.y), (400 - 200, 200 - 100));
}

#[test]
fn image_extensions_matched_case_insensitively() {
    assert!(is_image_file("photo.jpg"));
    assert!(is_image_file("photo.JPG"));
    assert!(is_image_file("photo.JpEg"));
    assert!(is_image_file("archive.tar.png"));
    assert!(is_image_file("x.gif"));
    assert!(is_image_file("x.bmp"));
    assert!(is_image_file("x.webp"));
    assert!(is_image_file("x.avif"));
    assert!(is_image_file("x.ico"));
}

#[test]
fn non_image_names_are_skipped() {
    assert!(!is_image_file("notes.txt"));
    assert!(!is_image_file("noextension"));
    assert!(!is_image_file(""));
    assert!(!is_image_file(".png"));
    assert!(!is_image_file("trailingdot."));
    assert!(!is_image_file("jpg"));
}

#[test]
fn batch_selects_exactly_the_allow_listed_files() {
    let names: Vec<String> = vec![
        "a.jpg".to_string(),
        "b.txt".to_string(),
        "c.PNG".to_string(),
        "d".to_string(),
        "e.webp".to_string(),
        ".gitignore".to_string(),
    ];
    let picked = filter_image_files(&names);
    assert_eq!(picked, vec!["a.jpg".to_string(), "c.PNG".to_string(), "e.webp".to_string()]);
}

#[test]
fn directory_names_render_decimal_suffixes() {
    assert_eq!(decimal_string(0), "0");
    assert_eq!(decimal_string(7), "7");
    assert_eq!(decimal_string(120), "120");
    assert_eq!(target_dir_name("watermarked", 0), "watermarked");
    assert_eq!(target_dir_name("watermarked", 12), "watermarked12");
}

#[test]
fn allocator_yields_base_then_numbered_names() {
    let mut existing: Vec<String> = Vec::new();
    let first = allocate_output_dir(&existing, "watermarked");
    assert_eq!(first, "watermarked");
    existing.push(first);
    let second = allocate_output_dir(&existing, "watermarked");
    assert_eq!(second, "watermarked1");
    existing.push(second);
    let third = allocate_output_dir(&existing, "watermarked");
    assert_eq!(third, "watermarked2");
    existing.push(third);
    assert_eq!(existing, vec!["watermarked", "watermarked1", "watermarked2"]);
}

#[test]
fn allocator_skips_over_taken_names_only() {
    let existing: Vec<String> =
        vec!["watermarked".to_string(), "watermarked2".to_string(), "other".to_string()];
    assert_eq!(allocate_output_dir(&existing, "watermarked"), "watermarked1");
}

#[test]
fn progress_emits_one_initial_and_one_tick_per_file() {
    let n = 5;
    let mut tracker = ProgressTracker::new();
    let mut emitted: Vec<Signal> = Vec::new();
    emitted.push(tracker.start());
    emitted.push(tracker.initial_tick(n));
    for _ in 0..n {
        emitted.push(tracker.file_done());
    }
    emitted.push(tracker.finish());
    let ticks = emitted.iter().filter(|s| matches!(s, Signal::Tick)).count();
    let busies = emitted.iter().filter(|s| matches!(s, Signal::Busy)).count();
    let idles = emitted.iter().filter(|s| matches!(s, Signal::Idle)).count();
    assert_eq!(ticks, n + 1);
    assert_eq!(busies, 1);
    assert_eq!(idles, 1);
    assert_eq!(emitted.first(), Some(&Signal::Busy));
    assert_eq!(emitted.last(), Some(&Signal::Idle));
}

#[test]
fn progress_fatal_abort_emits_the_pair_and_no_tick() {
    // a fatal configuration error ends the run before its files are
    // counted: the state channel still sees busy then idle, and the
    // progress channel sees nothing
    let mut tracker = ProgressTracker::new();
    let emitted = vec![tracker.start(), tracker.finish()];
    assert_eq!(emitted, vec![Signal::Busy, Signal::Idle]);
    let ticks = emitted.iter().filter(|s| matches!(s, Signal::Tick)).count();
    assert_eq!(ticks, 0);
}
