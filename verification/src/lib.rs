//! A library that builds a single labelled image: a solid white canvas of
//! caller-chosen dimensions with a caption rendered and composited at its
//! centre, delivered as encoded PNG bytes together with a filesystem-safe
//! file name derived from the caption.

use vstd::prelude::*;

pub mod codec;
pub mod error;
pub mod fontsize;
pub mod raster;
pub mod sanitize;

pub use error::RenderError;
pub use error::RenderErrorKind;
pub use fontsize::determine_font_size;
pub use raster::Pixel;
pub use raster::RasterImage;
pub use raster::create_white_background_image;
pub use raster::overlay_centered;
pub use sanitize::sanitize_name;

use crate::fontsize::font_size_spec;

verus! {

/// A validated request: the caption to render, where to put the file, the
/// colour spec handed verbatim to the rasterizer, an optional font size
/// (zero means choose automatically), and the canvas dimensions.
pub struct Args {
    pub name: String,
    pub path: String,
    pub color: String,
    pub font_size: u32,
    pub width: u32,
    pub height: u32,
}

/// The part of a request that the pipeline's contract speaks of.
pub ghost struct ArgsView {
    pub name: Seq<char>,
    pub color: Seq<char>,
    pub font_size: u32,
    pub width: u32,
    pub height: u32,
}

/// The pipeline's product: the sanitized file name and the encoded PNG
/// bytes of the composited canvas. Writing the bytes to disk is the
/// caller's business.
#[derive(Debug)]
pub struct RenderedImage {
    pub file_name: String,
    pub png_data: Vec<u8>,
}

/// The background canvas buffer: `w * h` pixels of pure opaque white.
pub open spec fn white_canvas(w: nat, h: nat) -> Seq<Pixel> {
    Seq::new(w * h, |k: int| raster::white())
}

/// Everything the pipeline promises of its result for request `req`. Each
/// stage's success is a function of what the pipeline hands it, so the
/// outcome is pinned for every request: impossible canvas dimensions give
/// exactly the allocation error; otherwise the first stage whose success
/// condition fails names the error, and when every stage succeeds the
/// result is a success carrying the sanitized file name together with the
/// PNG encoding of the white canvas with the rendered caption composited
/// at its centre — an encoding that decodes back to the request's
/// dimensions and those pixels.
pub open spec fn pipeline_post(req: ArgsView, r: Result<RenderedImage, RenderError>) -> bool {
    let ok_dims = req.width > 0 && req.height > 0 && req.width * req.height <= usize::MAX;
    let fsize = font_size_spec(
        req.name.len(),
        if req.font_size == 0 {
            None
        } else {
            Some(req.font_size)
        },
    );
    let render_ok = codec::render_ok_of(req.name, fsize, req.color);
    let overlay_png = codec::rendered_png_of(req.name, fsize, req.color);
    let decode_ok = codec::decode_ok_of(overlay_png);
    let dec = codec::decoded_rgba_of(overlay_png);
    let final_pixels = raster::composited(
        req.width as nat,
        req.height as nat,
        white_canvas(req.width as nat, req.height as nat),
        dec.0,
        dec.1,
        raster::pixels_of_bytes(dec.2),
    );
    let out_bytes = raster::bytes_of_pixels(final_pixels);
    let encode_ok = codec::encode_ok_of(req.width, req.height, out_bytes);
    &&& !ok_dims ==> r == Err::<RenderedImage, RenderError>(RenderError::Allocation)
    &&& ok_dims && !render_ok ==> (r matches Err(e) && e is Rendering)
    &&& ok_dims && render_ok && !decode_ok ==> (r matches Err(e) && e is Decode)
    &&& ok_dims && render_ok && decode_ok && !encode_ok ==> (r matches Err(e) && e is Io)
    &&& ok_dims && render_ok && decode_ok && encode_ok ==> r is Ok
    &&& r matches Ok(out) ==> {
        &&& ok_dims && render_ok && decode_ok && encode_ok
        &&& out.file_name@ == sanitize::sanitize_spec(req.name)
        &&& out.png_data@ == codec::png_encoded_of(req.width, req.height, out_bytes)
        &&& codec::decode_ok_of(out.png_data@)
        &&& codec::decoded_rgba_of(out.png_data@) == (
            req.width as nat,
            req.height as nat,
            out_bytes,
        )
    }
}

/// Anything that can run the composition pipeline for itself.
pub trait Renderer {
    /// The request this value stands for.
    spec fn req(&self) -> ArgsView;

    /// Run the pipeline: sanitize the caption into a file name, choose the
    /// font size, render the caption, composite it centred on a white
    /// canvas, and hand back the encoded PNG with the file name.
    fn render_text_to_png_data(&self) -> (r: Result<RenderedImage, RenderError>)
        ensures
            pipeline_post(self.req(), r),
    ;
}

impl Renderer for Args {
    open spec fn req(&self) -> ArgsView {
        ArgsView {
            name: self.name@,
            color: self.color@,
            font_size: self.font_size,
            width: self.width,
            height: self.height,
        }
    }

    fn render_text_to_png_data(&self) -> (r: Result<RenderedImage, RenderError>)
    {
        let file_name: String = sanitize::sanitize_name(self.name.as_str());
        let mut canvas: RasterImage = match raster::create_white_background_image(
            self.width,
            self.height,
        ) {
            Ok(c) => c,
            Err(e) => {
                return Err(e);
            },
        };
        let font_size: u32 = fontsize::determine_font_size(
            self.name.as_str(),
            if self.font_size == 0 {
                None
            } else {
                Some(self.font_size)
            },
        );
        let png: Vec<u8> = match codec::render_overlay_png(
            self.name.as_str(),
            font_size,
            self.color.as_str(),
        ) {
            Ok(p) => p,
            Err(e) => {
                return Err(e);
            },
        };
        let overlay: RasterImage = match codec::decode_overlay(&png) {
            Ok(o) => o,
            Err(e) => {
                return Err(e);
            },
        };
        proof {
            assert(canvas.pixels@ =~= white_canvas(self.width as nat, self.height as nat));
        }
        raster::overlay_centered(&mut canvas, &overlay);
        let data: Vec<u8> = match codec::encode_image(&canvas) {
            Ok(d) => d,
            Err(e) => {
                return Err(e);
            },
        };
        Ok(RenderedImage { file_name, png_data: data })
    }
}

/// The pipeline is deterministic: two runs of the same request succeed or
/// fail alike; two successes yield the same file name and byte-for-byte
/// the same PNG data, and two failures come from the same stage.
pub proof fn lemma_pipeline_deterministic(
    req: ArgsView,
    r1: Result<RenderedImage, RenderError>,
    r2: Result<RenderedImage, RenderError>,
)
    requires
        pipeline_post(req, r1),
        pipeline_post(req, r2),
    ensures
        r1 is Ok <==> r2 is Ok,
        r1 is Ok && r2 is Ok ==> r1->Ok_0.file_name@ == r2->Ok_0.file_name@
            && r1->Ok_0.png_data@ == r2->Ok_0.png_data@,
        r1 is Err && r2 is Err ==> r1->Err_0.kind_spec() == r2->Err_0.kind_spec(),
{
}

} // verus!
