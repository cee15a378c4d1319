//! Corner placement geometry: converts an alignment choice, margins and the
//! watermark's size into the exact pixel offset at which the watermark is
//! drawn onto a host image, for both the live preview and the batch path.
use vstd::prelude::*;

verus! {

/// Upper bound on any pixel dimension or margin the engine accepts; keeps all
/// intermediate products inside the integer types used below.
pub const MAX_DIM: u32 = 1000000;

/// Largest extent (watermark size or margin, in pixels of the host image)
/// that the placement formula accepts. A preview extent is at most
/// MAX_DIM * MAX_DIM * 2 pixels and a scaled margin at most MAX_DIM * MAX_DIM,
/// so both stay below this cap, and every sum in the formula fits in i64.
pub const MAX_EXTENT: u64 = 3000000000000;

/// One of the four corner anchors for watermark placement.
#[derive(Clone, Copy, PartialEq, Eq, Structural, Debug)]
pub enum Alignment {
    TopLeft,
    TopRight,
    BottomLeft,
    BottomRight,
}

impl Alignment {
    /// True when the anchor sits against the right edge of the host image.
    pub open spec fn spec_is_right(self) -> bool {
        self is TopRight || self is BottomRight
    }

    /// True when the anchor sits against the bottom edge of the host image.
    pub open spec fn spec_is_bottom(self) -> bool {
        self is BottomLeft || self is BottomRight
    }

    /// The one-hot indicator vector over
    /// [top-left, top-right, bottom-left, bottom-right]: exactly one entry is 1.
    pub fn indicator(self) -> (v: [i64; 4])
        ensures
            v@ == self.spec_indicator(),
    {
        match self {
            Alignment::TopLeft => [1i64, 0i64, 0i64, 0i64],
            Alignment::TopRight => [0i64, 1i64, 0i64, 0i64],
            Alignment::BottomLeft => [0i64, 0i64, 1i64, 0i64],
            Alignment::BottomRight => [0i64, 0i64, 0i64, 1i64],
        }
    }

    /// Indicator vector as a sequence, for contracts.
    pub open spec fn spec_indicator(self) -> Seq<i64> {
        match self {
            Alignment::TopLeft => seq![1i64, 0i64, 0i64, 0i64],
            Alignment::TopRight => seq![0i64, 1i64, 0i64, 0i64],
            Alignment::BottomLeft => seq![0i64, 0i64, 1i64, 0i64],
            Alignment::BottomRight => seq![0i64, 0i64, 0i64, 1i64],
        }
    }
}

/// Offset of the watermark along one axis: flush against the far edge minus
/// the margin when the anchor is on the far side, else just the margin.
pub open spec fn spec_offset(far: bool, image_extent: int, wm_extent: int, margin: int) -> int {
    if far {
        image_extent - wm_extent - margin
    } else {
        margin
    }
}

/// Top-left corner at which the watermark is drawn.
pub struct Placement {
    pub x: i64,
    pub y: i64,
}

/// Computes the watermark's top-left offset on a host image with the
/// branchless one-hot formula: exactly one alignment component selects, per
/// axis, either the "far edge minus margin" term or the "near margin" term.
///
/// For alignment = top-left and margin m this yields exactly (m, m); for
/// bottom-right exactly (image_w - wm_w - m, image_h - wm_h - m); and the
/// mixed corners accordingly.
pub fn placement_offsets(
    image_w: u64,
    image_h: u64,
    wm_w: u64,
    wm_h: u64,
    margin_x: u64,
    margin_y: u64,
    alignment: Alignment,
) -> (p: Placement)
    requires
        image_w <= MAX_EXTENT,
        image_h <= MAX_EXTENT,
        wm_w <= MAX_EXTENT,
        wm_h <= MAX_EXTENT,
        margin_x <= MAX_EXTENT,
        margin_y <= MAX_EXTENT,
    ensures
        p.x == spec_offset(
            alignment.spec_is_right(),
            image_w as int,
            wm_w as int,
            margin_x as int,
        ),
        p.y == spec_offset(
            alignment.spec_is_bottom(),
            image_h as int,
            wm_h as int,
            margin_y as int,
        ),
{
    let v = alignment.indicator();
    let mx = margin_x as i64;
    let my = margin_y as i64;
    let tx = image_w as i64 - wm_w as i64 - mx;
    let ty = image_h as i64 - wm_h as i64 - my;
    proof {
        let r = alignment.spec_is_right();
        let b = alignment.spec_is_bottom();
        assert((v@[1] + v@[3]) * tx == (if r { tx as int } else { 0int })) by (nonlinear_arith)
            requires v@[1] + v@[3] == (if r { 1int } else { 0int });
        assert((v@[0] + v@[2]) * mx == (if r { 0int } else { mx as int })) by (nonlinear_arith)
            requires v@[0] + v@[2] == (if r { 0int } else { 1int });
        assert((v@[2] + v@[3]) * ty == (if b { ty as int } else { 0int })) by (nonlinear_arith)
            requires v@[2] + v@[3] == (if b { 1int } else { 0int });
        assert((v@[0] + v@[1]) * my == (if b { 0int } else { my as int })) by (nonlinear_arith)
            requires v@[0] + v@[1] == (if b { 0int } else { 1int });
    }
    let x = (v[1] + v[3]) * tx + (v[0] + v[2]) * mx;
    let y = (v[2] + v[3]) * ty + (v[0] + v[1]) * my;
    Placement { x, y }
}

/// Ceiling division for non-negative operands.
pub open spec fn ceil_div(a: int, b: int) -> int
    recommends
        a >= 0,
        b >= 1,
{
    (a + b - 1) / b
}

/// One preview dimension of the watermark: the decoded size ratio
/// wm / img, applied to the rendered preview extent and the slider's scale
/// factor (in hundredths), rounded up to whole pixels.
pub open spec fn preview_extent(wm: int, rendered: int, scale_centi: int, img: int) -> int {
    ceil_div(wm * rendered * scale_centi, img * 100)
}

/// The margin scaled from decoded-image pixels into rendered-preview pixels,
/// rounded up to whole pixels.
pub open spec fn preview_margin(margin: int, rendered_w: int, img_w: int) -> int {
    ceil_div(margin * rendered_w, img_w)
}

/// Geometry of the watermark overlay inside the rendered preview.
pub struct PreviewGeometry {
    pub x: i64,
    pub y: i64,
    pub width: u64,
    pub height: u64,
}

fn ceil_div_u64(a: u64, b: u64) -> (q: u64)
    requires
        b >= 1,
        a <= u64::MAX - b,
    ensures
        q == ceil_div(a as int, b as int),
{
    (a + (b - 1)) / b
}

proof fn lemma_ceil_div_bound(a: int, b: int)
    requires
        0 <= a <= 200000000000000,
        100 <= b <= 100000000,
    ensures
        ceil_div(a, b) <= MAX_EXTENT,
{
    let q = ceil_div(a, b);
    vstd::arithmetic::div_mod::lemma_fundamental_div_mod(a + b - 1, b);
    assert(q * b <= a + b - 1);
    assert(q >= 0) by {
        vstd::arithmetic::div_mod::lemma_div_pos_is_pos(a + b - 1, b);
    }
    assert(q * 100 <= q * b) by (nonlinear_arith)
        requires 0 <= q, 100 <= b;
    assert(q * 100 <= 200000000000000 + 100000000 - 1);
    assert(q <= 3000000000000);
}

proof fn lemma_ceil_div_le(a: int, b: int)
    requires
        0 <= a,
        1 <= b,
    ensures
        ceil_div(a, b) <= a,
{
    let q = ceil_div(a, b);
    vstd::arithmetic::div_mod::lemma_fundamental_div_mod(a + b - 1, b);
    assert(q * b <= a + b - 1);
    assert(q >= 0) by {
        vstd::arithmetic::div_mod::lemma_div_pos_is_pos(a + b - 1, b);
    }
    assert(q <= a) by (nonlinear_arith)
        requires q * b <= a + b - 1, 0 <= q, 1 <= b, 0 <= a;
}

/// Geometry of the live preview, mirroring the batch placement: the
/// watermark's rendered size follows the ratio of the decoded watermark to
/// the decoded preview image, the slider's scale factor, and the rendered
/// preview size; the margin is scaled by rendered / decoded width so the
/// on-screen margin matches the batch margin proportionally. With no preview
/// image loaded (a zero decoded dimension) the ratios degenerate to zero and
/// the margin is used unscaled.
pub fn calculate_watermark_position(
    img_w: u32,
    img_h: u32,
    wm_w: u32,
    wm_h: u32,
    rendered_w: u32,
    rendered_h: u32,
    scale_centi: u32,
    margin: u32,
    alignment: Alignment,
) -> (g: PreviewGeometry)
    requires
        img_w <= MAX_DIM,
        img_h <= MAX_DIM,
        wm_w <= MAX_DIM,
        wm_h <= MAX_DIM,
        rendered_w <= MAX_DIM,
        rendered_h <= MAX_DIM,
        margin <= MAX_DIM,
        1 <= scale_centi <= 200,
    ensures
        g.width == (if img_w == 0 || img_h == 0 { 0int } else {
            preview_extent(wm_w as int, rendered_w as int, scale_centi as int, img_w as int)
        }),
        g.height == (if img_w == 0 || img_h == 0 { 0int } else {
            preview_extent(wm_h as int, rendered_h as int, scale_centi as int, img_h as int)
        }),
        g.x == spec_offset(
            alignment.spec_is_right(),
            rendered_w as int,
            g.width as int,
            (if img_w == 0 || img_h == 0 { margin as int } else {
                preview_margin(margin as int, rendered_w as int, img_w as int)
            }),
        ),
        g.y == spec_offset(
            alignment.spec_is_bottom(),
            rendered_h as int,
            g.height as int,
            (if img_w == 0 || img_h == 0 { margin as int } else {
                preview_margin(margin as int, rendered_w as int, img_w as int)
            }),
        ),
{
    let no_image = img_w == 0 || img_h == 0;
    let width: u64 = if no_image {
        0
    } else {
        proof {
            vstd::arithmetic::mul::lemma_mul_upper_bound(
                wm_w as int, MAX_DIM as int, rendered_w as int, MAX_DIM as int);
            vstd::arithmetic::mul::lemma_mul_upper_bound(
                wm_w as int * rendered_w as int, 1000000000000, scale_centi as int, 200);
        }
        let p = wm_w as u64 * rendered_w as u64 * scale_centi as u64;
        let q = ceil_div_u64(p, img_w as u64 * 100);
        proof {
            lemma_ceil_div_bound(p as int, img_w as int * 100);
        }
        q
    };
    let height: u64 = if no_image {
        0
    } else {
        proof {
            vstd::arithmetic::mul::lemma_mul_upper_bound(
                wm_h as int, MAX_DIM as int, rendered_h as int, MAX_DIM as int);
            vstd::arithmetic::mul::lemma_mul_upper_bound(
                wm_h as int * rendered_h as int, 1000000000000, scale_centi as int, 200);
        }
        let p = wm_h as u64 * rendered_h as u64 * scale_centi as u64;
        let q = ceil_div_u64(p, img_h as u64 * 100);
        proof {
            lemma_ceil_div_bound(p as int, img_h as int * 100);
        }
        q
    };
    let adjusted_margin: u64 = if no_image {
        margin as u64
    } else {
        proof {
            vstd::arithmetic::mul::lemma_mul_upper_bound(
                margin as int, MAX_DIM as int, rendered_w as int, MAX_DIM as int);
        }
        let p = margin as u64 * rendered_w as u64;
        let m = ceil_div_u64(p, img_w as u64);
        proof {
            lemma_ceil_div_le(p as int, img_w as int);
        }
        m
    };
    let p = placement_offsets(
        rendered_w as u64,
        rendered_h as u64,
        width,
        height,
        adjusted_margin,
        adjusted_margin,
        alignment,
    );
    PreviewGeometry { x: p.x, y: p.y, width, height }
}

} // verus!
