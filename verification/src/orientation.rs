//! Orientation normalization: an image file's metadata can ask for a flip
//! and/or a quarter-turn rotation. The engine applies the correction once,
//! up front, so every later geometry computation works in upright pixel
//! space; this module models what that correction does to the dimensions.
use vstd::prelude::*;

verus! {

/// The eight orientations an image file's metadata can carry: the identity,
/// the two axis flips, the three rotations, and the two flip-then-rotate
/// combinations. Absent or unreadable metadata is treated as NoTransforms.
#[derive(Clone, Copy, PartialEq, Eq, Structural, Debug)]
pub enum OrientationTag {
    NoTransforms,
    FlipHorizontal,
    FlipVertical,
    Rotate90,
    Rotate180,
    Rotate270,
    Rotate90FlipH,
    Rotate270FlipH,
}

impl OrientationTag {
    /// True when applying the orientation turns the canvas by a quarter
    /// turn, so the pixel width and height trade places.
    pub open spec fn spec_swaps_dims(self) -> bool {
        self is Rotate90 || self is Rotate270 || self is Rotate90FlipH
            || self is Rotate270FlipH
    }

    /// Executable twin of spec_swaps_dims.
    pub fn swaps_dims(self) -> (b: bool)
        ensures
            b == self.spec_swaps_dims(),
    {
        match self {
            OrientationTag::Rotate90 => true,
            OrientationTag::Rotate270 => true,
            OrientationTag::Rotate90FlipH => true,
            OrientationTag::Rotate270FlipH => true,
            _ => false,
        }
    }
}

/// The orientation an EXIF orientation byte asks for: the eight defined
/// values 1 through 8 in their standard meaning, and the identity for
/// anything outside them.
pub open spec fn spec_exif_tag(e: u8) -> OrientationTag {
    if e == 2 {
        OrientationTag::FlipHorizontal
    } else if e == 3 {
        OrientationTag::Rotate180
    } else if e == 4 {
        OrientationTag::FlipVertical
    } else if e == 5 {
        OrientationTag::Rotate90FlipH
    } else if e == 6 {
        OrientationTag::Rotate90
    } else if e == 7 {
        OrientationTag::Rotate270FlipH
    } else if e == 8 {
        OrientationTag::Rotate270
    } else {
        OrientationTag::NoTransforms
    }
}

/// Executable twin of spec_exif_tag.
pub fn exif_tag(e: u8) -> (t: OrientationTag)
    ensures
        t == spec_exif_tag(e),
{
    match e {
        2 => OrientationTag::FlipHorizontal,
        3 => OrientationTag::Rotate180,
        4 => OrientationTag::FlipVertical,
        5 => OrientationTag::Rotate90FlipH,
        6 => OrientationTag::Rotate90,
        7 => OrientationTag::Rotate270FlipH,
        8 => OrientationTag::Rotate270,
        _ => OrientationTag::NoTransforms,
    }
}

/// The upright pixel width after the orientation is applied to a decoded
/// canvas of width w and height h.
pub open spec fn oriented_width(o: OrientationTag, w: int, h: int) -> int {
    if o.spec_swaps_dims() {
        h
    } else {
        w
    }
}

/// The upright pixel height after the orientation is applied.
pub open spec fn oriented_height(o: OrientationTag, w: int, h: int) -> int {
    if o.spec_swaps_dims() {
        w
    } else {
        h
    }
}

} // verus!
