//! The image writer: flattens the pixel buffer into RGBA channel bytes
//! and serializes them as an in-memory PNG byte stream through the
//! external codec. Writing the stream to disk is left to the caller.

use crate::color::Pixel;
use crate::render::{buffer_spec, render, Config};
use vstd::prelude::*;

verus! {

/// The row-major RGBA flattening of a pixel sequence: four bytes per
/// pixel, in R, G, B, A channel order.
pub open spec fn rgba_bytes_spec(pixels: Seq<Pixel>) -> Seq<u8> {
    Seq::new(
        (4 * pixels.len()) as nat,
        |k: int|
            {
                let p = pixels[k / 4];
                if k % 4 == 0 {
                    p.r
                } else if k % 4 == 1 {
                    p.g
                } else if k % 4 == 2 {
                    p.b
                } else {
                    p.a
                }
            },
    )
}

/// Converts every color of the buffer to its four 8-bit channel values,
/// producing the flat RGBA byte sequence in buffer order.
pub fn to_rgba_bytes(pixels: &Vec<Pixel>) -> (bytes: Vec<u8>)
    requires
        4 * pixels@.len() <= usize::MAX,
    ensures
        bytes@ == rgba_bytes_spec(pixels@),
{
    let mut bytes: Vec<u8> = Vec::new();
    let mut i: usize = 0;
    while i < pixels.len()
        invariant
            i <= pixels@.len(),
            4 * pixels@.len() <= usize::MAX,
            bytes@.len() == 4 * i,
            forall|k: int| 0 <= k < 4 * i ==> bytes@[k] == rgba_bytes_spec(pixels@)[k],
        decreases pixels@.len() - i,
    {
        let p = pixels[i];
        bytes.push(p.r);
        bytes.push(p.g);
        bytes.push(p.b);
        bytes.push(p.a);
        i = i + 1;
    }
    proof {
        assert(bytes@ =~= rgba_bytes_spec(pixels@));
    }
    bytes
}

/// Failure modes of PNG serialization. These are the only ones: once the
/// dimensions and the buffer length agree, the encoder owes success.
#[derive(Clone, Copy, PartialEq, Eq, Structural, Debug)]
pub enum ImageError {
    /// The image has a zero width or a zero height.
    ZeroDimension,
    /// The buffer length does not equal `width * height`.
    SizeMismatch,
}

#[verifier::external_type_specification]
#[verifier::external_body]
pub struct ExEncodingError(png::EncodingError);

pub uninterp spec fn png_encoding_of(rgba: Seq<u8>, width: int, height: int) -> Seq<u8>;

/// Relies on png::Encoder / png::Writer: serializing an RGBA buffer of
/// exactly `4 * width * height` bytes, at 8-bit depth, into an in-memory
/// PNG stream. The stream produced depends only on the buffer and the
/// dimensions. The call succeeds: the admitted inputs rule out the
/// encoder's zero-dimension and buffer-size rejections, RGBA at 8-bit
/// depth is a valid color combination, and the `Vec` writer never
/// reports an I/O failure.
#[verifier::external_body]
fn encode_png_rgba(rgba: &Vec<u8>, width: u32, height: u32) -> (r: Result<
    Vec<u8>,
    png::EncodingError,
>)
    requires
        width >= 1,
        height >= 1,
        rgba@.len() == 4 * width * height,
    ensures
        r is Ok,
        r matches Ok(out) ==> out@ == png_encoding_of(rgba@, width as int, height as int),
{
    let mut out: Vec<u8> = Vec::new();
    {
        let mut encoder = png::Encoder::new(&mut out, width, height);
        encoder.set_color(png::ColorType::Rgba);
        encoder.set_depth(png::BitDepth::Eight);
        let mut writer = encoder.write_header()?;
        writer.write_image_data(rgba)?;
    }
    Ok(out)
}

/// Serializes a pixel buffer of the given dimensions as a PNG byte
/// stream: rejects a zero dimension or a buffer whose length is not
/// `width * height`, and succeeds on every other input, handing the
/// channel bytes to the external encoder.
pub fn encode_image(pixels: &Vec<Pixel>, width: u32, height: u32) -> (r: Result<
    Vec<u8>,
    ImageError,
>)
    requires
        4 * pixels@.len() <= usize::MAX,
    ensures
        r is Ok <==> (width >= 1 && height >= 1 && pixels@.len() == width * height),
        (r matches Err(e) && e == ImageError::ZeroDimension) <==> (width == 0 || height == 0),
        (r matches Err(e) && e == ImageError::SizeMismatch) <==> (width >= 1 && height >= 1
            && pixels@.len() != width * height),
        r matches Ok(b) ==> b@ == png_encoding_of(
            rgba_bytes_spec(pixels@),
            width as int,
            height as int,
        ),
{
    if width == 0 || height == 0 {
        return Err(ImageError::ZeroDimension);
    }
    proof {
        assert((width as int) * (height as int) < 0x1_0000_0000_0000_0000) by (nonlinear_arith)
            requires
                width <= 0xffff_ffff,
                height <= 0xffff_ffff,
        ;
    }
    let expected: u64 = (width as u64) * (height as u64);
    if (pixels.len() as u64) != expected {
        return Err(ImageError::SizeMismatch);
    }
    let bytes = to_rgba_bytes(pixels);
    proof {
        assert(pixels@.len() == (width as int) * (height as int));
        assert(4 * (width as int) * (height as int) == 4 * ((width as int) * (height
            as int))) by (nonlinear_arith);
    }
    match encode_png_rgba(&bytes, width, height) {
        Ok(out) => Ok(out),
        // unreachable: the encoder owes success on size-checked input
        Err(_) => Err(ImageError::SizeMismatch),
    }
}

/// Renders the configured field and serializes it in one step. With a
/// well-formed configuration the dimension and length checks cannot
/// fail, so the call always succeeds.
pub fn render_png(cfg: &Config) -> (r: Result<Vec<u8>, ImageError>)
    requires
        cfg.wf(),
    ensures
        r is Ok,
        r matches Ok(b) ==> b@ == png_encoding_of(
            rgba_bytes_spec(buffer_spec(*cfg)),
            cfg.width as int,
            cfg.height as int,
        ),
{
    let pixels = render(cfg);
    let r = encode_image(&pixels, cfg.width as u32, cfg.height as u32);
    r
}

} // verus!
