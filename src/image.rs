use vstd::prelude::*;

verus! {

/// Decoded pixel data, tagged by its 8-bit layout.
#[derive(PartialEq, Eq, Debug)]
pub enum PixelsByColorType {
    /// One gray byte per pixel.
    K8(Vec<u8>),
    /// Gray then alpha, two bytes per pixel.
    KA8(Vec<u8>),
    /// Red, green, blue, three bytes per pixel.
    RGB8(Vec<u8>),
    /// Red, green, blue, alpha, four bytes per pixel.
    RGBA8(Vec<u8>),
}

/// The mathematical form of a pixel buffer: its layout tag (0 gray, 1 gray
/// and alpha, 2 RGB, 3 RGBA) and its bytes.
pub struct PixelsModel {
    pub tag: u8,
    pub bytes: Seq<u8>,
}

/// Bytes per pixel of the layout with the given tag.
pub open spec fn tag_bytes_per_pixel(tag: u8) -> nat {
    if tag == 0 {
        1
    } else if tag == 1 {
        2
    } else if tag == 2 {
        3
    } else {
        4
    }
}

impl View for PixelsByColorType {
    type V = PixelsModel;

    open spec fn view(&self) -> PixelsModel {
        match self {
            PixelsByColorType::K8(v) => PixelsModel { tag: 0, bytes: v@ },
            PixelsByColorType::KA8(v) => PixelsModel { tag: 1, bytes: v@ },
            PixelsByColorType::RGB8(v) => PixelsModel { tag: 2, bytes: v@ },
            PixelsByColorType::RGBA8(v) => PixelsModel { tag: 3, bytes: v@ },
        }
    }
}

impl PixelsByColorType {
    /// Bytes per pixel of this layout.
    pub fn bytes_per_pixel(&self) -> (r: usize)
        ensures
            r as nat == tag_bytes_per_pixel(self@.tag),
            1 <= r <= 4,
    {
        match self {
            PixelsByColorType::K8(_) => 1,
            PixelsByColorType::KA8(_) => 2,
            PixelsByColorType::RGB8(_) => 3,
            PixelsByColorType::RGBA8(_) => 4,
        }
    }
}

/// A decoded raster image.
#[derive(PartialEq, Eq, Debug)]
pub struct Image {
    pub width: u32,
    pub height: u32,
    pub pixels: PixelsByColorType,
}

/// The mathematical form of an image.
pub struct ImageModel {
    pub width: u32,
    pub height: u32,
    pub pixels: PixelsModel,
}

impl View for Image {
    type V = ImageModel;

    open spec fn view(&self) -> ImageModel {
        ImageModel { width: self.width, height: self.height, pixels: self.pixels@ }
    }
}

/// An image is well formed when its buffer holds exactly one pixel for each
/// position of its grid, in its layout.
pub open spec fn image_wf(m: ImageModel) -> bool {
    m.pixels.bytes.len() == m.width as nat * m.height as nat * tag_bytes_per_pixel(
        m.pixels.tag,
    )
}

impl Image {
    pub open spec fn wf(&self) -> bool {
        image_wf(self@)
    }
}

/// What one decode attempt resolves to.
#[derive(PartialEq, Eq, Debug)]
pub enum DecodeResult {
    Image(Image),
    Error(String),
}

/// The mathematical form of a decode outcome.
pub enum OutcomeModel {
    Image(ImageModel),
    Error(Seq<char>),
}

impl View for DecodeResult {
    type V = OutcomeModel;

    open spec fn view(&self) -> OutcomeModel {
        match self {
            DecodeResult::Image(i) => OutcomeModel::Image(i@),
            DecodeResult::Error(m) => OutcomeModel::Error(m@),
        }
    }
}

/// An outcome is well formed when the image it carries, if any, is.
pub open spec fn outcome_wf(o: OutcomeModel) -> bool {
    match o {
        OutcomeModel::Image(m) => image_wf(m),
        OutcomeModel::Error(_) => true,
    }
}

} // verus!
