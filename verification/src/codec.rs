//! The pipeline's external collaborators: the glyph rasterizer that turns a
//! caption into PNG bytes, and the image codec that decodes those bytes
//! into RGBA pixels and encodes the composited canvas back into a PNG.
//! Each outside call sits behind one trusted item; everything around the
//! calls is verified. All three collaborators are deterministic: whether a
//! call succeeds, and what it returns, are functions of its arguments
//! alone, so both get names here.

use vstd::prelude::*;

use crate::error::RenderError;
use crate::raster::RasterImage;
use crate::raster::bytes_from_pixels;
use crate::raster::bytes_of_pixels;
use crate::raster::pixels_from_bytes;
use crate::raster::pixels_of_bytes;

use image::ImageEncoder;

verus! {

/// Declares text_to_png's error type so the library may carry it as an
/// error cause; the library never looks inside a value of it.
#[verifier::external_type_specification]
#[verifier::external_body]
pub struct ExTextToPngError(text_to_png::TextToPngError);

/// Declares the image crate's error type so the library may carry it as an
/// error cause; the library never looks inside a value of it.
#[verifier::external_type_specification]
#[verifier::external_body]
pub struct ExImageError(image::ImageError);

/// Whether the glyph rasterizer accepts a caption, font size and colour
/// spec; a function of the arguments alone.
pub uninterp spec fn render_ok_of(text: Seq<char>, font_size: u32, color: Seq<char>) -> bool;

/// The PNG bytes the glyph rasterizer produces for a caption, font size and
/// colour spec.
pub uninterp spec fn rendered_png_of(text: Seq<char>, font_size: u32, color: Seq<char>) -> Seq<
    u8,
>;

/// Relies on text_to_png's TextRenderer::render_text_to_png_data with the
/// default embedded font: renders the caption to PNG bytes. Success and
/// result depend only on the caption, the font size and the colour spec
/// (the renderer uses its embedded font database and fixed options).
#[verifier::external_body]
fn render_text_png(text: &str, font_size: u32, color: &str) -> (r: Result<
    Vec<u8>,
    text_to_png::TextToPngError,
>)
    ensures
        r is Ok <==> render_ok_of(text@, font_size, color@),
        r matches Ok(data) ==> data@ == rendered_png_of(text@, font_size, color@),
{
    let renderer = text_to_png::TextRenderer::default();
    match renderer.render_text_to_png_data(text, font_size, color) {
        Ok(png) => Ok(png.data),
        Err(e) => Err(e),
    }
}

/// Whether the image codec can decode the bytes; a function of the bytes
/// alone.
pub uninterp spec fn decode_ok_of(bytes: Seq<u8>) -> bool;

/// What decoding an encoded image gives: width, height, and the RGBA bytes,
/// four per pixel; a function of the encoded bytes alone.
pub uninterp spec fn decoded_rgba_of(bytes: Seq<u8>) -> (nat, nat, Seq<u8>);

/// Relies on image's ImageReader (the route load_from_memory takes, with
/// the decoder's default allocation limits lifted so size alone never
/// fails a decode) and DynamicImage::to_rgba8: decodes the bytes and
/// normalizes them to RGBA. Success, dimensions and pixel bytes depend
/// only on the input, and the raw buffer holds width * height * 4 bytes.
#[verifier::external_body]
fn decode_rgba(bytes: &Vec<u8>) -> (r: Result<(u32, u32, Vec<u8>), image::ImageError>)
    ensures
        r is Ok <==> decode_ok_of(bytes@),
        r matches Ok(t) ==> ({
            &&& t.0 as nat == decoded_rgba_of(bytes@).0
            &&& t.1 as nat == decoded_rgba_of(bytes@).1
            &&& t.2@ == decoded_rgba_of(bytes@).2
            &&& t.2@.len() == 4 * (t.0 as nat) * (t.1 as nat)
        }),
{
    let mut reader = image::ImageReader::new(std::io::Cursor::new(bytes.as_slice()));
    reader.no_limits();
    let img = reader.with_guessed_format()?.decode()?;
    let rgba = img.to_rgba8();
    let (w, h) = (rgba.width(), rgba.height());
    Ok((w, h, rgba.into_raw()))
}

/// Whether the PNG encoder accepts an RGBA buffer of the given dimensions;
/// a function of the arguments alone.
pub uninterp spec fn encode_ok_of(width: u32, height: u32, pixels: Seq<u8>) -> bool;

/// The PNG encoding of an RGBA buffer with the given dimensions.
pub uninterp spec fn png_encoded_of(width: u32, height: u32, pixels: Seq<u8>) -> Seq<u8>;

/// Relies on image's PngEncoder::write_image: encodes an RGBA buffer as a
/// PNG with fixed default settings, deterministically in the dimensions and
/// bytes. PNG RGBA8 is lossless, so decoding the encoding — through this
/// library's own limit-free decoder above — gives back the dimensions and
/// the buffer whatever their size. The encoder asserts that the buffer
/// length matches the dimensions, so that is required here.
#[verifier::external_body]
fn encode_png(width: u32, height: u32, pixels: &Vec<u8>) -> (r: Result<
    Vec<u8>,
    image::ImageError,
>)
    requires
        pixels@.len() == 4 * (width as nat) * (height as nat),
        width > 0,
        height > 0,
    ensures
        r is Ok <==> encode_ok_of(width, height, pixels@),
        r matches Ok(data) ==> ({
            &&& data@ == png_encoded_of(width, height, pixels@)
            &&& decode_ok_of(data@)
            &&& decoded_rgba_of(data@) == (width as nat, height as nat, pixels@)
        }),
{
    let mut out: Vec<u8> = Vec::new();
    let enc = image::codecs::png::PngEncoder::new(&mut out);
    match enc.write_image(pixels, width, height, image::ExtendedColorType::Rgba8) {
        Ok(()) => Ok(out),
        Err(e) => Err(e),
    }
}

/// Render the caption to standalone PNG bytes with the external glyph
/// rasterizer. Fails, with the rasterizer's error as cause, exactly when
/// the rasterizer rejects the input.
pub fn render_overlay_png(text: &str, font_size: u32, color: &str) -> (r: Result<
    Vec<u8>,
    RenderError,
>)
    ensures
        r is Ok <==> render_ok_of(text@, font_size, color@),
        r matches Ok(data) ==> data@ == rendered_png_of(text@, font_size, color@),
        r matches Err(e) ==> e is Rendering,
{
    match render_text_png(text, font_size, color) {
        Ok(d) => Ok(d),
        Err(e) => Err(RenderError::Rendering(e)),
    }
}

/// Decode rasterizer output into the library's raster model. Fails, with
/// the codec's error as cause, exactly when the bytes are not a decodable
/// image.
pub fn decode_overlay(bytes: &Vec<u8>) -> (r: Result<RasterImage, RenderError>)
    ensures
        r is Ok <==> decode_ok_of(bytes@),
        r matches Ok(img) ==> ({
            &&& img.wf()
            &&& img.width as nat == decoded_rgba_of(bytes@).0
            &&& img.height as nat == decoded_rgba_of(bytes@).1
            &&& img.pixels@ == pixels_of_bytes(decoded_rgba_of(bytes@).2)
        }),
        r matches Err(e) ==> e is Decode,
{
    match decode_rgba(bytes) {
        Ok((w, h, raw)) => {
            proof {
                let ghost wh = (w as int) * (h as int);
                assert(4 * (w as int) * (h as int) == wh * 4) by (nonlinear_arith)
                    requires
                        wh == (w as int) * (h as int),
                ;
                vstd::arithmetic::div_mod::lemma_mod_multiples_basic(wh, 4);
                vstd::arithmetic::div_mod::lemma_div_by_multiple(wh, 4);
            }
            let px = pixels_from_bytes(&raw);
            Ok(RasterImage { width: w, height: h, pixels: px })
        },
        Err(e) => Err(RenderError::Decode(e)),
    }
}

/// Encode the composited canvas as PNG bytes that decode back to the same
/// dimensions and pixels. Fails, with the codec's error as cause, exactly
/// when the encoder rejects the buffer.
pub fn encode_image(img: &RasterImage) -> (r: Result<Vec<u8>, RenderError>)
    requires
        img.wf(),
        img.width > 0,
        img.height > 0,
    ensures
        r is Ok <==> encode_ok_of(img.width, img.height, bytes_of_pixels(img.pixels@)),
        r matches Ok(data) ==> ({
            &&& data@ == png_encoded_of(img.width, img.height, bytes_of_pixels(img.pixels@))
            &&& decode_ok_of(data@)
            &&& decoded_rgba_of(data@) == (
                img.width as nat,
                img.height as nat,
                bytes_of_pixels(img.pixels@),
            )
        }),
        r matches Err(e) ==> e is Io,
{
    let bytes = bytes_from_pixels(&img.pixels);
    proof {
        assert(((img.width as int) * (img.height as int)) * 4 == 4 * (img.width as int) * (
        img.height as int)) by (nonlinear_arith);
    }
    match encode_png(img.width, img.height, &bytes) {
        Ok(d) => Ok(d),
        Err(e) => Err(RenderError::Io(e)),
    }
}

} // verus!
