//! The pipeline's uniform error channel: one terminal error kind per stage,
//! each with a fixed human-readable description of what failed, carrying the
//! collaborator's own error as the underlying cause where there is one.

use vstd::prelude::*;

verus! {

/// Which stage of the pipeline an error came from.
#[derive(Clone, Copy, Debug, PartialEq, Eq, Structural)]
pub enum RenderErrorKind {
    Rendering,
    Decode,
    Io,
    Allocation,
}

/// Why an invocation of the pipeline failed. Every error is terminal:
/// nothing is retried and no partial output is promised.
#[derive(Debug)]
pub enum RenderError {
    /// The glyph rasterizer rejected the input (bad colour spec, font
    /// issue); carries the rasterizer's error as the cause.
    Rendering(text_to_png::TextToPngError),
    /// The rasterizer's output could not be parsed as an image; carries the
    /// codec's error as the cause.
    Decode(image::ImageError),
    /// The composited result could not be encoded for persisting; carries
    /// the codec's error as the cause.
    Io(image::ImageError),
    /// The requested canvas could not be allocated (zero or oversized
    /// dimensions).
    Allocation,
}

impl RenderError {
    /// The stage this error belongs to.
    pub open spec fn kind_spec(self) -> RenderErrorKind {
        match self {
            RenderError::Rendering(_) => RenderErrorKind::Rendering,
            RenderError::Decode(_) => RenderErrorKind::Decode,
            RenderError::Io(_) => RenderErrorKind::Io,
            RenderError::Allocation => RenderErrorKind::Allocation,
        }
    }

    /// The stage this error belongs to.
    pub fn kind(&self) -> (k: RenderErrorKind)
        ensures
            k == self.kind_spec(),
    {
        match self {
            RenderError::Rendering(_) => RenderErrorKind::Rendering,
            RenderError::Decode(_) => RenderErrorKind::Decode,
            RenderError::Io(_) => RenderErrorKind::Io,
            RenderError::Allocation => RenderErrorKind::Allocation,
        }
    }

    /// The stage description attached to each error kind.
    pub open spec fn message_spec(self) -> Seq<char> {
        match self {
            RenderError::Rendering(_) => "Failed to render text to png data"@,
            RenderError::Decode(_) => "Failed to load image"@,
            RenderError::Io(_) => "Failed to save image"@,
            RenderError::Allocation => "Failed to allocate image canvas"@,
        }
    }

    /// A human-readable description of which stage failed.
    pub fn message(&self) -> (r: &'static str)
        ensures
            r@ == self.message_spec(),
    {
        match self {
            RenderError::Rendering(_) => "Failed to render text to png data",
            RenderError::Decode(_) => "Failed to load image",
            RenderError::Io(_) => "Failed to save image",
            RenderError::Allocation => "Failed to allocate image canvas",
        }
    }
}

} // verus!
