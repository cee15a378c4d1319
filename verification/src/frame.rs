//! Decoded images for the compositor. A Frame carries the pixel data of one
//! decoded image — opaque to the verifier — together with its pixel
//! dimensions as plain fields that the verified geometry reads. The trusted
//! wrappers below hold this module's only calls into the image codec crate;
//! each one's doc comment names the function relied on.
use vstd::prelude::*;

use crate::files::FormatTag;
use crate::orientation::oriented_height;
use crate::orientation::oriented_width;

verus! {

#[verifier::external_type_specification]
#[verifier::external_body]
pub struct ExDynamicImage(image::DynamicImage);

#[verifier::external_type_specification]
#[verifier::external_body]
pub struct ExImageError(image::ImageError);

/// One decoded image: the upright pixel dimensions the geometry works on,
/// and the pixel data itself, carried for the imaging calls. The wrappers
/// of this module keep the dimension fields equal to the carried canvas.
pub struct Frame {
    width: u32,
    height: u32,
    image: image::DynamicImage,
}

impl Frame {
    /// Pixel width of the carried canvas.
    pub closed spec fn spec_width(self) -> u32 {
        self.width
    }

    /// Pixel height of the carried canvas.
    pub closed spec fn spec_height(self) -> u32 {
        self.height
    }

    /// Pixel width of the carried canvas.
    pub fn width(&self) -> (w: u32)
        ensures
            w == self.spec_width(),
    {
        self.width
    }

    /// Pixel height of the carried canvas.
    pub fn height(&self) -> (h: u32)
        ensures
            h == self.spec_height(),
    {
        self.height
    }
}

/// Names what the codec yields for given bytes read as a given format:
/// the decoded canvas's width and height and its EXIF orientation byte
/// (1 where the metadata is absent or unreadable), or None where the bytes
/// do not decode. Decoding is a function of the bytes and the format alone.
pub uninterp spec fn spec_decode(bytes: Seq<u8>, fmt: FormatTag) -> Option<(u32, u32, u8)>;

/// Relies on image::ImageReader::with_format, ImageReader::into_decoder,
/// ImageDecoder::orientation, Orientation::to_exif and
/// DynamicImage::from_decoder: decodes the bytes as the given format and
/// reports the embedded orientation as its EXIF byte, with the identity
/// byte 1 where the metadata is absent or unreadable; the returned Frame's
/// width and height are the decoded canvas's dimensions.
#[verifier::external_body]
pub(crate) fn decode_frame(bytes: &Vec<u8>, fmt: FormatTag) -> (r: Result<
    (Frame, u8),
    image::ImageError,
>)
    ensures
        r is Ok <==> spec_decode(bytes@, fmt) is Some,
        r is Ok ==> r->Ok_0.0.spec_width() == spec_decode(bytes@, fmt)->Some_0.0
            && r->Ok_0.0.spec_height() == spec_decode(bytes@, fmt)->Some_0.1
            && r->Ok_0.1 == spec_decode(bytes@, fmt)->Some_0.2,
{
    let raw = match fmt {
        FormatTag::Jpeg => image::ImageFormat::Jpeg,
        FormatTag::Png => image::ImageFormat::Png,
        FormatTag::Gif => image::ImageFormat::Gif,
        FormatTag::Bmp => image::ImageFormat::Bmp,
        FormatTag::WebP => image::ImageFormat::WebP,
        FormatTag::Avif => image::ImageFormat::Avif,
        FormatTag::Ico => image::ImageFormat::Ico,
    };
    let reader = image::ImageReader::with_format(std::io::Cursor::new(bytes.as_slice()), raw);
    let mut decoder = reader.into_decoder()?;
    let exif = image::ImageDecoder::orientation(&mut decoder).unwrap_or(image::metadata::Orientation::NoTransforms).to_exif();
    let image = image::DynamicImage::from_decoder(decoder)?;
    let (width, height) = image::GenericImageView::dimensions(&image);
    Ok((Frame { width, height, image }, exif))
}

/// Relies on DynamicImage::apply_orientation: applies the flip and/or
/// quarter-turn the orientation asks for; a quarter turn (Rotate90,
/// Rotate270 and their flipped variants) trades the canvas's width and
/// height, every other orientation keeps them.
#[verifier::external_body]
fn apply_orientation_raw(image: &mut image::DynamicImage, o: crate::orientation::OrientationTag) {
    let tag = match o {
        crate::orientation::OrientationTag::NoTransforms => image::metadata::Orientation::NoTransforms,
        crate::orientation::OrientationTag::FlipHorizontal => image::metadata::Orientation::FlipHorizontal,
        crate::orientation::OrientationTag::FlipVertical => image::metadata::Orientation::FlipVertical,
        crate::orientation::OrientationTag::Rotate90 => image::metadata::Orientation::Rotate90,
        crate::orientation::OrientationTag::Rotate180 => image::metadata::Orientation::Rotate180,
        crate::orientation::OrientationTag::Rotate270 => image::metadata::Orientation::Rotate270,
        crate::orientation::OrientationTag::Rotate90FlipH => image::metadata::Orientation::Rotate90FlipH,
        crate::orientation::OrientationTag::Rotate270FlipH => image::metadata::Orientation::Rotate270FlipH,
    };
    image.apply_orientation(tag);
}

/// Relies on imageops::resize with the Triangle (linear) filter: the
/// resampled buffer has exactly the requested dimensions, with the alpha
/// channel preserved.
#[verifier::external_body]
pub(crate) fn resize_frame(f: &Frame, width: u32, height: u32) -> (r: Frame)
    ensures
        r.spec_width() == width,
        r.spec_height() == height,
{
    let buf = image::imageops::resize(
        &f.image,
        width,
        height,
        image::imageops::FilterType::Triangle,
    );
    Frame { width, height, image: image::DynamicImage::ImageRgba8(buf) }
}

/// Relies on imageops::overlay: alpha-blends the top image onto the bottom
/// one at the given offset, drawing nothing outside the bottom canvas (the
/// drawn region is clamped, for any offsets), and leaves the bottom
/// canvas's dimensions unchanged.
#[verifier::external_body]
pub(crate) fn overlay_frame(base: &mut Frame, top: &Frame, x: i64, y: i64)
    ensures
        final(base).spec_width() == old(base).spec_width(),
        final(base).spec_height() == old(base).spec_height(),
{
    image::imageops::overlay(&mut base.image, &top.image, x, y);
}

/// Relies on DynamicImage::write_to: encodes the pixels in the given format
/// into an in-memory buffer.
#[verifier::external_body]
pub(crate) fn encode_frame(f: &Frame, fmt: FormatTag) -> (r: Result<Vec<u8>, image::ImageError>) {
    let raw = match fmt {
        FormatTag::Jpeg => image::ImageFormat::Jpeg,
        FormatTag::Png => image::ImageFormat::Png,
        FormatTag::Gif => image::ImageFormat::Gif,
        FormatTag::Bmp => image::ImageFormat::Bmp,
        FormatTag::WebP => image::ImageFormat::WebP,
        FormatTag::Avif => image::ImageFormat::Avif,
        FormatTag::Ico => image::ImageFormat::Ico,
    };
    let mut out: Vec<u8> = Vec::new();
    match f.image.write_to(&mut std::io::Cursor::new(&mut out), raw) {
        Ok(()) => Ok(out),
        Err(e) => Err(e),
    }
}

impl Frame {
    /// Applies the decoded orientation once, up front, so all later
    /// geometry works on upright dimensions: a quarter-turn orientation
    /// swaps width and height, every other orientation leaves them as
    /// decoded.
    pub fn normalize(&mut self, o: crate::orientation::OrientationTag)
        ensures
            final(self).spec_width() == oriented_width(
                o,
                old(self).spec_width() as int,
                old(self).spec_height() as int,
            ),
            final(self).spec_height() == oriented_height(
                o,
                old(self).spec_width() as int,
                old(self).spec_height() as int,
            ),
    {
        apply_orientation_raw(&mut self.image, o);
        if o.swaps_dims() {
            let w = self.width;
            self.width = self.height;
            self.height = w;
        }
    }
}

} // verus!
