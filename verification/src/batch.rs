//! The batch compositing pipeline: one validated configuration is applied
//! to every candidate file — decode, normalize orientation, solve the
//! scaled watermark size from the fixed relative surface area, place it at
//! the chosen corner, blend, and encode back into the file's own format.
//! Every file's outcome is recorded on its own; one bad file never stops
//! the others.
use vstd::prelude::*;

use crate::files::lower_seq;
use crate::files::spec_format_of;
use crate::files::spec_last_dot;
use crate::files::FormatTag;
use crate::frame;
use crate::frame::spec_decode;
use crate::frame::Frame;
use crate::geometry::placement_offsets;
use crate::orientation::exif_tag;
use crate::orientation::oriented_height;
use crate::orientation::oriented_width;
use crate::orientation::spec_exif_tag;
use crate::geometry::spec_offset;
use crate::geometry::Alignment;
use crate::geometry::MAX_DIM;
use crate::scaling::height_radicand;
use crate::scaling::is_rounded_sqrt;
use crate::scaling::rounded_div;
use crate::scaling::scaled_margin;
use crate::scaling::scaled_watermark_dims;
use crate::scaling::width_radicand;
use crate::scaling::MAX_AREA_DEN;

verus! {

/// Why a configuration was rejected before fan-out.
#[derive(Clone, Copy, PartialEq, Eq, Structural, Debug)]
pub enum ConfigError {
    /// The relative surface area is not a fraction in (0, 1] with a
    /// denominator the scaler accepts.
    SurfaceArea,
    /// The margin exceeds the largest accepted dimension.
    Margin,
    /// The preview width is zero or exceeds the largest accepted dimension.
    PreviewWidth,
}

/// Why one file of a batch failed; recorded for that file alone.
#[derive(Clone, Copy, PartialEq, Eq, Structural, Debug)]
pub enum FileError {
    /// The name has no extension naming a decodable format.
    UnsupportedFormat,
    /// The bytes would not decode as the extension's format.
    Decode,
    /// The upright canvas is larger than the geometry accepts.
    Oversized,
    /// A watermark with a zero dimension has no aspect ratio to keep.
    Degenerate,
    /// The composited image would not encode back into its format.
    Encode,
    /// The file could not be read, or its output not written.
    Io,
}

/// The geometry parameters of one batch run, fixed once from the preview
/// when the user confirms and applied unchanged to every file.
#[derive(Clone, Copy, Debug)]
pub struct BatchConfig {
    /// Relative surface area as the exact fraction rel_num / rel_den: the
    /// watermark's preview pixel area over the image's preview pixel area.
    pub rel_num: u64,
    pub rel_den: u64,
    /// Margin in preview pixels; each host image gets it scaled by its own
    /// width over the preview image's width.
    pub margin: u32,
    /// Width of the preview image the margin was chosen on.
    pub preview_w: u32,
    /// The corner the watermark anchors to.
    pub alignment: Alignment,
}

impl BatchConfig {
    /// Bounds under which every computation of the pipeline fits its
    /// integer types.
    pub open spec fn wf(self) -> bool {
        &&& 1 <= self.rel_num <= self.rel_den <= MAX_AREA_DEN
        &&& self.margin <= MAX_DIM
        &&& 1 <= self.preview_w <= MAX_DIM
    }

    /// Validates the user's geometry choices, exactly in this order: the
    /// relative surface area must be a fraction in (0, 1] with a
    /// denominator of at most MAX_AREA_DEN, the margin at most MAX_DIM,
    /// and the preview width between 1 and MAX_DIM.
    pub fn new(rel_num: u64, rel_den: u64, margin: u32, preview_w: u32, alignment: Alignment)
        -> (r: Result<BatchConfig, ConfigError>)
        ensures
            r == (if !(1 <= rel_num && rel_num <= rel_den && rel_den <= MAX_AREA_DEN) {
                Err::<BatchConfig, ConfigError>(ConfigError::SurfaceArea)
            } else if !(margin <= MAX_DIM) {
                Err::<BatchConfig, ConfigError>(ConfigError::Margin)
            } else if !(1 <= preview_w && preview_w <= MAX_DIM) {
                Err::<BatchConfig, ConfigError>(ConfigError::PreviewWidth)
            } else {
                Ok::<BatchConfig, ConfigError>(BatchConfig {
                    rel_num,
                    rel_den,
                    margin,
                    preview_w,
                    alignment,
                })
            }),
            r is Ok ==> r->Ok_0.wf(),
    {
        if !(1 <= rel_num && rel_num <= rel_den && rel_den <= MAX_AREA_DEN) {
            Err(ConfigError::SurfaceArea)
        } else if !(margin <= MAX_DIM) {
            Err(ConfigError::Margin)
        } else if !(1 <= preview_w && preview_w <= MAX_DIM) {
            Err(ConfigError::PreviewWidth)
        } else {
            Ok(BatchConfig { rel_num, rel_den, margin, preview_w, alignment })
        }
    }
}

/// Where and at what size the watermark lands on one host image.
pub struct BatchGeometry {
    /// Scaled watermark size: round(sqrt(area * aspect)) by
    /// round(sqrt(area / aspect)), for area = rel_num/rel_den of the host
    /// image's pixel area and aspect the watermark's width over height.
    pub width: u32,
    pub height: u32,
    /// Top-left offset of the watermark on the host image.
    pub x: i64,
    pub y: i64,
}

/// Solves the exact geometry of one host image: the watermark's scaled
/// size from the run's relative surface area and the watermark's aspect
/// ratio, the margin scaled by the host's width over the preview width
/// (rounded to the nearest pixel), and the corner offset by the placement
/// formula.
pub fn batch_geometry(cfg: &BatchConfig, img_w: u32, img_h: u32, wm_w: u32, wm_h: u32)
    -> (g: BatchGeometry)
    requires
        cfg.wf(),
        img_w <= MAX_DIM,
        img_h <= MAX_DIM,
        1 <= wm_w <= MAX_DIM,
        1 <= wm_h <= MAX_DIM,
    ensures
        is_rounded_sqrt(
            width_radicand(cfg.rel_num as int, cfg.rel_den as int, img_w as int, img_h as int,
                wm_w as int, wm_h as int),
            g.width as int,
        ),
        is_rounded_sqrt(
            height_radicand(cfg.rel_num as int, cfg.rel_den as int, img_w as int, img_h as int,
                wm_w as int, wm_h as int),
            g.height as int,
        ),
        g.x == spec_offset(
            cfg.alignment.spec_is_right(),
            img_w as int,
            g.width as int,
            rounded_div(cfg.margin as int * img_w as int, cfg.preview_w as int),
        ),
        g.y == spec_offset(
            cfg.alignment.spec_is_bottom(),
            img_h as int,
            g.height as int,
            rounded_div(cfg.margin as int * img_w as int, cfg.preview_w as int),
        ),
{
    let dims = scaled_watermark_dims(cfg.rel_num, cfg.rel_den, img_w, img_h, wm_w, wm_h);
    let m = scaled_margin(cfg.margin, cfg.preview_w, img_w);
    let p = placement_offsets(
        img_w as u64,
        img_h as u64,
        dims.width as u64,
        dims.height as u64,
        m,
        m,
        cfg.alignment,
    );
    BatchGeometry { width: dims.width, height: dims.height, x: p.x, y: p.y }
}

/// The format the file's extension names, by the engine's allow-list.
pub open spec fn spec_file_format(name: Seq<char>) -> Option<FormatTag> {
    if spec_last_dot(name) >= 1 {
        spec_format_of(lower_seq(name.subrange(spec_last_dot(name) + 1, name.len() as int)))
    } else {
        None
    }
}

/// What decoding the file's bytes as its extension's format yields: the
/// decoded canvas and orientation byte, or None when the extension names no
/// accepted format or the bytes do not decode.
pub open spec fn spec_file_decode(name: Seq<char>, bytes: Seq<u8>) -> Option<(u32, u32, u8)> {
    match spec_file_format(name) {
        Some(f) => spec_decode(bytes, f),
        None => None,
    }
}

/// Upright pixel width of a decode result, once its orientation is applied.
pub open spec fn spec_upright_width(d: (u32, u32, u8)) -> int {
    oriented_width(spec_exif_tag(d.2), d.0 as int, d.1 as int)
}

/// Upright pixel height of a decode result, once its orientation is applied.
pub open spec fn spec_upright_height(d: (u32, u32, u8)) -> int {
    oriented_height(spec_exif_tag(d.2), d.0 as int, d.1 as int)
}

/// Decodes the watermark once for the whole run and normalizes its
/// orientation. Success and every error are pinned exactly: the name's
/// extension must be allow-listed, the bytes must decode as that format,
/// and the upright canvas must have both dimensions in [1, MAX_DIM]; the
/// returned frame carries exactly the upright dimensions.
pub fn load_watermark(name: &str, bytes: &Vec<u8>) -> (r: Result<Frame, FileError>)
    ensures
        (r == Err::<Frame, FileError>(FileError::UnsupportedFormat)) <==> spec_file_format(
            name@) is None,
        (r == Err::<Frame, FileError>(FileError::Decode)) <==> (spec_file_format(name@) is Some
            && spec_file_decode(name@, bytes@) is None),
        (r == Err::<Frame, FileError>(FileError::Degenerate)) <==> (spec_file_decode(
            name@, bytes@) matches Some(d) && (spec_upright_width(d) == 0
            || spec_upright_height(d) == 0)),
        (r == Err::<Frame, FileError>(FileError::Oversized)) <==> (spec_file_decode(
            name@, bytes@) matches Some(d) && spec_upright_width(d) >= 1
            && spec_upright_height(d) >= 1 && (spec_upright_width(d) > MAX_DIM
            || spec_upright_height(d) > MAX_DIM)),
        r is Ok <==> (spec_file_decode(name@, bytes@) matches Some(d)
            && 1 <= spec_upright_width(d) <= MAX_DIM
            && 1 <= spec_upright_height(d) <= MAX_DIM),
        r is Ok ==> (spec_file_decode(name@, bytes@) matches Some(d)
            && r->Ok_0.spec_width() == spec_upright_width(d)
            && r->Ok_0.spec_height() == spec_upright_height(d)),
{
    let ext = match crate::files::file_extension(name) {
        Some(e) => e,
        None => {
            return Err(FileError::UnsupportedFormat);
        },
    };
    let format = match crate::files::extension_format(ext) {
        Some(f) => f,
        None => {
            return Err(FileError::UnsupportedFormat);
        },
    };
    let (mut wm, exif) = match frame::decode_frame(bytes, format) {
        Ok(p) => p,
        Err(_) => {
            return Err(FileError::Decode);
        },
    };
    let tag = exif_tag(exif);
    wm.normalize(tag);
    if wm.width() == 0 || wm.height() == 0 {
        return Err(FileError::Degenerate);
    }
    if wm.width() > MAX_DIM || wm.height() > MAX_DIM {
        return Err(FileError::Oversized);
    }
    Ok(wm)
}

/// Composites the watermark onto one candidate file: decode the bytes as
/// the format its extension names, normalize the orientation so the
/// geometry sees upright dimensions, solve the scaled size and corner
/// offset with batch_geometry, resample the watermark to that size with
/// the smooth triangle filter, alpha-blend it at the offset, and encode
/// the result back into the same format. Each failure is this file's
/// alone, and each is pinned exactly: an unsupported name, undecodable
/// bytes and an oversized upright canvas give their own errors, and on
/// every other input the call reaches the encoder and returns its output
/// or its failure.
pub fn watermark_one(name: &str, bytes: &Vec<u8>, watermark: &Frame, cfg: &BatchConfig)
    -> (r: Result<Vec<u8>, FileError>)
    requires
        cfg.wf(),
        1 <= watermark.spec_width() <= MAX_DIM,
        1 <= watermark.spec_height() <= MAX_DIM,
    ensures
        (r == Err::<Vec<u8>, FileError>(FileError::UnsupportedFormat)) <==> spec_file_format(
            name@) is None,
        (r == Err::<Vec<u8>, FileError>(FileError::Decode)) <==> (spec_file_format(
            name@) is Some && spec_file_decode(name@, bytes@) is None),
        (r == Err::<Vec<u8>, FileError>(FileError::Oversized)) <==> (spec_file_decode(
            name@, bytes@) matches Some(d) && (spec_upright_width(d) > MAX_DIM
            || spec_upright_height(d) > MAX_DIM)),
        (r is Ok || r == Err::<Vec<u8>, FileError>(FileError::Encode)) <==> (spec_file_decode(
            name@, bytes@) matches Some(d) && spec_upright_width(d) <= MAX_DIM
            && spec_upright_height(d) <= MAX_DIM),
{
    let ext = match crate::files::file_extension(name) {
        Some(e) => e,
        None => {
            return Err(FileError::UnsupportedFormat);
        },
    };
    let format = match crate::files::extension_format(ext) {
        Some(f) => f,
        None => {
            return Err(FileError::UnsupportedFormat);
        },
    };
    let (mut host, exif) = match frame::decode_frame(bytes, format) {
        Ok(p) => p,
        Err(_) => {
            return Err(FileError::Decode);
        },
    };
    let tag = exif_tag(exif);
    host.normalize(tag);
    if host.width() > MAX_DIM || host.height() > MAX_DIM {
        return Err(FileError::Oversized);
    }
    let g = batch_geometry(cfg, host.width(), host.height(), watermark.width(),
        watermark.height());
    let scaled = frame::resize_frame(watermark, g.width, g.height);
    frame::overlay_frame(&mut host, &scaled, g.x, g.y);
    match frame::encode_frame(&host, format) {
        Ok(out) => Ok(out),
        Err(_) => Err(FileError::Encode),
    }
}

/// What one run did, file by file: the names that produced an output and
/// the names that failed, in directory order.
pub struct BatchSummary {
    pub succeeded: Vec<String>,
    pub failed: Vec<String>,
}

/// The names of the outcomes that succeeded, in order.
pub open spec fn spec_successes(rs: Seq<(Seq<char>, Result<(), FileError>)>) -> Seq<Seq<char>> {
    rs.filter(|p: (Seq<char>, Result<(), FileError>)| p.1 is Ok).map_values(
        |p: (Seq<char>, Result<(), FileError>)| p.0,
    )
}

/// The names of the outcomes that failed, in order.
pub open spec fn spec_failures(rs: Seq<(Seq<char>, Result<(), FileError>)>) -> Seq<Seq<char>> {
    rs.filter(|p: (Seq<char>, Result<(), FileError>)| !(p.1 is Ok)).map_values(
        |p: (Seq<char>, Result<(), FileError>)| p.0,
    )
}

/// The view of recorded per-file outcomes.
pub open spec fn spec_outcomes(rs: Seq<(String, Result<(), FileError>)>) -> Seq<
    (Seq<char>, Result<(), FileError>),
> {
    rs.map_values(|p: (String, Result<(), FileError>)| (p.0@, p.1))
}

/// Collects the per-file outcomes of one run into its summary: the
/// successes are exactly the files whose outcome was Ok and the failures
/// exactly the others, each in order.
pub fn summarize(results: &Vec<(String, Result<(), FileError>)>) -> (s: BatchSummary)
    ensures
        s.succeeded@.map_values(|x: String| x@) == spec_successes(spec_outcomes(results@)),
        s.failed@.map_values(|x: String| x@) == spec_failures(spec_outcomes(results@)),
{
    let ghost viewed = spec_outcomes(results@);
    let mut succeeded: Vec<String> = Vec::new();
    let mut failed: Vec<String> = Vec::new();
    let mut i: usize = 0;
    proof {
        reveal(Seq::filter);
        assert(viewed.take(0) =~= Seq::<(Seq<char>, Result<(), FileError>)>::empty());
        assert(succeeded@.map_values(|x: String| x@) =~= spec_successes(viewed.take(0)));
        assert(failed@.map_values(|x: String| x@) =~= spec_failures(viewed.take(0)));
    }
    while i < results.len()
        invariant
            i <= results@.len(),
            viewed == spec_outcomes(results@),
            succeeded@.map_values(|x: String| x@) == spec_successes(viewed.take(i as int)),
            failed@.map_values(|x: String| x@) == spec_failures(viewed.take(i as int)),
        decreases results@.len() - i,
    {
        let ghost prev_s = succeeded@.map_values(|x: String| x@);
        let ghost prev_f = failed@.map_values(|x: String| x@);
        let entry = &results[i];
        if entry.1.is_ok() {
            succeeded.push(entry.0.clone());
        } else {
            failed.push(entry.0.clone());
        }
        proof {
            reveal(Seq::filter);
            assert(viewed.take(i + 1).drop_last() =~= viewed.take(i as int));
            assert(viewed.take(i + 1).last() == viewed[i as int]);
            if viewed[i as int].1 is Ok {
                assert(succeeded@.map_values(|x: String| x@) =~= prev_s.push(entry.0@));
                assert(spec_successes(viewed.take(i + 1)) =~= spec_successes(viewed.take(
                    i as int)).push(viewed[i as int].0));
                assert(spec_failures(viewed.take(i + 1)) =~= spec_failures(viewed.take(
                    i as int)));
            } else {
                assert(failed@.map_values(|x: String| x@) =~= prev_f.push(entry.0@));
                assert(spec_failures(viewed.take(i + 1)) =~= spec_failures(viewed.take(
                    i as int)).push(viewed[i as int].0));
                assert(spec_successes(viewed.take(i + 1)) =~= spec_successes(viewed.take(
                    i as int)));
            }
        }
        i += 1;
    }
    proof {
        assert(viewed.take(results@.len() as int) =~= viewed);
    }
    BatchSummary { succeeded, failed }
}

proof fn lemma_map_contains<A, B>(s: Seq<A>, f: spec_fn(A) -> B, x: A)
    requires
        s.contains(x),
    ensures
        s.map_values(f).contains(f(x)),
{
    let i = choose|i: int| 0 <= i < s.len() && s[i] == x;
    assert(s.map_values(f)[i] == f(x));
}

/// Isolation: per-file outcomes are independent. Between two runs over the
/// same files in which every file but one came out the same — say a
/// corrupt file failed in one run and not the other — every other
/// succeeding file is among the successes of both runs, and a file that
/// failed in both runs is among the failures of both.
pub proof fn lemma_isolation(
    rs1: Seq<(Seq<char>, Result<(), FileError>)>,
    rs2: Seq<(Seq<char>, Result<(), FileError>)>,
    odd: int,
)
    requires
        rs1.len() == rs2.len(),
        0 <= odd < rs1.len(),
        forall|i: int| 0 <= i < rs1.len() && i != odd ==> rs1[i] == rs2[i],
    ensures
        forall|i: int| 0 <= i < rs1.len() && i != odd && #[trigger] rs1[i].1 is Ok
            ==> spec_successes(rs1).contains(rs1[i].0) && spec_successes(rs2).contains(rs1[i].0),
        forall|i: int| 0 <= i < rs1.len() && i != odd && !(#[trigger] rs1[i].1 is Ok)
            ==> spec_failures(rs1).contains(rs1[i].0) && spec_failures(rs2).contains(rs1[i].0),
{
    let ok = |p: (Seq<char>, Result<(), FileError>)| p.1 is Ok;
    let bad = |p: (Seq<char>, Result<(), FileError>)| !(p.1 is Ok);
    let name_of = |p: (Seq<char>, Result<(), FileError>)| p.0;
    assert forall|i: int| 0 <= i < rs1.len() && i != odd && #[trigger] rs1[i].1 is Ok
        implies spec_successes(rs1).contains(rs1[i].0) && spec_successes(rs2).contains(
        rs1[i].0) by {
        rs1.lemma_filter_contains(ok, i);
        lemma_map_contains(rs1.filter(ok), name_of, rs1[i]);
        rs2.lemma_filter_contains(ok, i);
        lemma_map_contains(rs2.filter(ok), name_of, rs2[i]);
    }
    assert forall|i: int| 0 <= i < rs1.len() && i != odd && !(#[trigger] rs1[i].1 is Ok)
        implies spec_failures(rs1).contains(rs1[i].0) && spec_failures(rs2).contains(
        rs1[i].0) by {
        rs1.lemma_filter_contains(bad, i);
        lemma_map_contains(rs1.filter(bad), name_of, rs1[i]);
        rs2.lemma_filter_contains(bad, i);
        lemma_map_contains(rs2.filter(bad), name_of, rs2[i]);
    }
}

} // verus!
