use vstd::prelude::*;

use crate::rpc::ChannelError;
use crate::image::{
    image_wf, outcome_wf, DecodeResult, Image, ImageModel, OutcomeModel, PixelsByColorType, PixelsModel,
};

verus! {

/// The first frame of a PNG stream as the decoder hands it out, after palette
/// expansion, transparency-to-alpha expansion, sub-byte expansion and 16-bit
/// stripping. `color` is the PNG color type code, `depth` the bits per sample.
pub struct RawFrame {
    pub width: u32,
    pub height: u32,
    pub color: u8,
    pub depth: u8,
    pub line_size: usize,
    pub data: Vec<u8>,
}

/// The mathematical form of a raw frame.
pub struct FrameModel {
    pub width: u32,
    pub height: u32,
    pub color: u8,
    pub depth: u8,
    pub line_size: usize,
    pub data: Seq<u8>,
}

impl View for RawFrame {
    type V = FrameModel;

    open spec fn view(&self) -> FrameModel {
        FrameModel {
            width: self.width,
            height: self.height,
            color: self.color,
            depth: self.depth,
            line_size: self.line_size,
            data: self.data@,
        }
    }
}

/// Why the PNG decoder gave up on a stream.
#[derive(Clone, Copy, PartialEq, Eq, Debug)]
pub enum PngFailure {
    /// The stream ended before the data its header announced.
    Truncated,
    /// The stream is not a valid PNG.
    Malformed,
    /// The image does not fit in memory.
    TooLarge,
}

#[verifier::external_type_specification]
#[verifier::external_body]
pub struct ExDecodingError(png::DecodingError);

/// The frame that the PNG decoder produces from a byte stream, or `None`
/// where it rejects the stream. Decoding depends on the bytes alone.
pub uninterp spec fn png_output(data: Seq<u8>) -> Option<FrameModel>;

/// Relies on `png::Decoder::read_info` and `png::Reader::next_frame` with the
/// `EXPAND | STRIP_16` transformations: the first frame of the stream, with
/// its output color type, bit depth and row size.
#[verifier::external_body]
fn read_png(data: &[u8]) -> (r: Result<RawFrame, png::DecodingError>)
    ensures
        match r {
            Ok(f) => png_output(data@) == Some(f@),
            Err(_) => png_output(data@) is None,
        },
{
    let mut decoder = png::Decoder::new(std::io::Cursor::new(data));
    decoder.set_transformations(png::Transformations::EXPAND | png::Transformations::STRIP_16);
    let mut reader = decoder.read_info()?;
    let size = reader.output_buffer_size().ok_or(png::DecodingError::LimitsExceeded)?;
    let mut buf = vec![0u8; size];
    let info = reader.next_frame(&mut buf)?;
    let (color, depth) = (info.color_type as u8, info.bit_depth as u8);
    Ok(RawFrame { width: info.width, height: info.height, color, depth, line_size: info.line_size, data: buf })
}

/// Relies on the variants of `png::DecodingError`: an I/O error from an
/// in-memory reader can only be the end of the data.
#[verifier::external_body]
fn failure_of(e: png::DecodingError) -> (r: PngFailure) {
    match e {
        png::DecodingError::IoError(_) => PngFailure::Truncated,
        png::DecodingError::Format(_) => PngFailure::Malformed,
        png::DecodingError::Parameter(_) => PngFailure::Malformed,
        png::DecodingError::LimitsExceeded => PngFailure::TooLarge,
    }
}


/// Samples per pixel of a decoder output with the given PNG color type code
/// and bit depth, for the 8-bit layouts this library accepts.
pub open spec fn spec_samples(color: u8, depth: u8) -> Option<nat> {
    if depth != 8 {
        None
    } else if color == 0 {
        Some(1)
    } else if color == 4 {
        Some(2)
    } else if color == 2 {
        Some(3)
    } else if color == 6 {
        Some(4)
    } else {
        None
    }
}

/// Samples per pixel of an 8-bit gray (0), gray+alpha (4), RGB (2) or RGBA (6)
/// decoder output; `None` for any other color type or depth.
pub fn samples_per_pixel(color: u8, depth: u8) -> (r: Option<usize>)
    ensures
        match r {
            Some(n) => spec_samples(color, depth) == Some(n as nat),
            None => spec_samples(color, depth) is None,
        },
{
    if depth != 8 {
        None
    } else if color == 0 {
        Some(1)
    } else if color == 4 {
        Some(2)
    } else if color == 2 {
        Some(3)
    } else if color == 6 {
        Some(4)
    } else {
        None
    }
}

/// Byte `i` of the RGBA form of pixels packed with `ch` samples each: gray is
/// copied into red, green and blue; a missing alpha is opaque (`0xFF`).
pub open spec fn rgba_byte(ch: nat, src: Seq<u8>, i: int) -> u8 {
    let base = (i / 4) * ch;
    let k = i % 4;
    if ch == 1 {
        if k < 3 { src[base] } else { 0xFF }
    } else if ch == 2 {
        if k < 3 { src[base] } else { src[base + 1] }
    } else if ch == 3 {
        if k < 3 { src[base + k] } else { 0xFF }
    } else {
        src[base + k]
    }
}

/// The RGBA form of the first `n` pixels of `src`, packed with `ch` samples each.
pub open spec fn to_rgba(ch: nat, src: Seq<u8>, n: nat) -> Seq<u8> {
    Seq::new(n * 4, |i: int| rgba_byte(ch, src, i))
}

/// Expands `n` pixels of `ch` samples each into four bytes per pixel.
pub fn expand_to_rgba(ch: usize, src: &[u8], n: usize) -> (r: Vec<u8>)
    requires
        1 <= ch <= 4,
        n * ch <= src@.len(),
        n * 4 <= usize::MAX,
    ensures
        r@ == to_rgba(ch as nat, src@, n as nat),
{
    let mut out: Vec<u8> = Vec::with_capacity(n * 4);
    let len = src.len();
    let mut p: usize = 0;
    while p < n
        invariant
            1 <= ch <= 4,
            n * ch <= src@.len(),
            n * 4 <= usize::MAX,
            len == src@.len(),
            p <= n,
            out@.len() == p * 4,
            forall|j: int| 0 <= j < p * 4 ==> #[trigger] out@[j] == rgba_byte(ch as nat, src@, j),
        decreases n - p,
    {
        assert(p * ch + ch <= n * ch) by (nonlinear_arith)
            requires
                p < n,
                1 <= ch,
        ;
        let base = p * ch;
        let (a, b, c, d) = if ch == 1 {
            (src[base], src[base], src[base], 0xFFu8)
        } else if ch == 2 {
            (src[base], src[base], src[base], src[base + 1])
        } else if ch == 3 {
            (src[base], src[base + 1], src[base + 2], 0xFFu8)
        } else {
            (src[base], src[base + 1], src[base + 2], src[base + 3])
        };
        let ghost old_out = out@;
        out.push(a);
        out.push(b);
        out.push(c);
        out.push(d);
        proof {
            assert forall|j: int| 0 <= j < (p + 1) * 4 implies #[trigger] out@[j] == rgba_byte(
                ch as nat,
                src@,
                j,
            ) by {
                if j < p * 4 {
                    assert(out@[j] == old_out[j]);
                } else {
                    assert(j / 4 == p as int);
                    assert(j % 4 == j - p * 4);
                }
            }
        }
        p = p + 1;
    }
    assert(out@ =~= to_rgba(ch as nat, src@, n as nat));
    out
}

/// The message of a decode that the PNG decoder gave up on.
pub open spec fn failure_text(k: PngFailure) -> Seq<char> {
    match k {
        PngFailure::Truncated => "truncated input"@,
        PngFailure::Malformed => "error reading png"@,
        PngFailure::TooLarge => "image too large"@,
    }
}

/// The message of a frame whose color type or depth has no 8-bit layout here.
pub open spec fn unsupported_text() -> Seq<char> {
    "color type not supported"@
}

/// The message for a given decoder failure.
pub fn failure_message(k: PngFailure) -> (r: String)
    ensures
        r@ == failure_text(k),
{
    match k {
        PngFailure::Truncated => "truncated input".to_owned(),
        PngFailure::Malformed => "error reading png".to_owned(),
        PngFailure::TooLarge => "image too large".to_owned(),
    }
}

/// What a decoded frame becomes: an RGBA image with one four-byte pixel per
/// grid position, or an error where the frame's layout is unsupported, does
/// not match its own dimensions, or is too large to address.
pub open spec fn frame_outcome(f: FrameModel) -> OutcomeModel {
    match spec_samples(f.color, f.depth) {
        None => OutcomeModel::Error(unsupported_text()),
        Some(ch) => {
            let n = f.width as nat * f.height as nat;
            if f.line_size != f.width as nat * ch {
                OutcomeModel::Error(failure_text(PngFailure::Malformed))
            } else if n * 4 > usize::MAX {
                OutcomeModel::Error(failure_text(PngFailure::TooLarge))
            } else if n * ch > f.data.len() {
                OutcomeModel::Error(failure_text(PngFailure::Malformed))
            } else {
                OutcomeModel::Image(
                    ImageModel {
                        width: f.width,
                        height: f.height,
                        pixels: PixelsModel { tag: 3, bytes: to_rgba(ch, f.data, n) },
                    },
                )
            }
        },
    }
}

/// Turns a decoded frame into an image of four bytes per pixel.
pub fn image_from_frame(f: RawFrame) -> (r: DecodeResult)
    ensures
        r@ == frame_outcome(f@),
        outcome_wf(r@),
{
    let ch = match samples_per_pixel(f.color, f.depth) {
        Some(ch) => ch,
        None => {
            return DecodeResult::Error("color type not supported".to_owned());
        },
    };
    let w = f.width as usize;
    let h = f.height as usize;
    let row_ok = match w.checked_mul(ch) {
        Some(row) => row == f.line_size,
        None => false,
    };
    if !row_ok {
        return DecodeResult::Error(failure_message(PngFailure::Malformed));
    }
    let n = match w.checked_mul(h) {
        Some(n) => n,
        None => {
            assert(w * h * 4 > usize::MAX) by (nonlinear_arith)
                requires
                    w * h > usize::MAX,
            ;
            return DecodeResult::Error(failure_message(PngFailure::TooLarge));
        },
    };
    let n4 = match n.checked_mul(4) {
        Some(n4) => n4,
        None => {
            return DecodeResult::Error(failure_message(PngFailure::TooLarge));
        },
    };
    assert(f.line_size * h == n * ch) by (nonlinear_arith)
        requires
            f.line_size == w * ch,
            n == w * h,
    ;
    let fits = match f.line_size.checked_mul(h) {
        Some(t) => t <= f.data.len(),
        None => false,
    };
    if !fits {
        return DecodeResult::Error(failure_message(PngFailure::Malformed));
    }
    let bytes = expand_to_rgba(ch, f.data.as_slice(), n);
    DecodeResult::Image(Image { width: f.width, height: f.height, pixels: PixelsByColorType::RGBA8(bytes) })
}

/// The outcomes that decoding `data` may give: the image or error that the
/// decoder's frame becomes, or, where the decoder rejects the stream, the
/// error message for its reason. Each is well formed, and its image, if any,
/// is laid out as RGBA.
pub open spec fn decode_allows(data: Seq<u8>, o: OutcomeModel) -> bool {
    &&& outcome_wf(o)
    &&& o matches OutcomeModel::Image(m) ==> m.pixels.tag == 3
    &&& match png_output(data) {
        Some(f) => o == frame_outcome(f),
        None => exists|k: PngFailure| o == OutcomeModel::Error(failure_text(k)),
    }
}

/// Decodes a PNG byte stream held in memory. Every input, well formed or
/// not, resolves to exactly one outcome: the image that the decoder's frame
/// becomes, or an error message.
pub fn decode_from_memory(image: &[u8]) -> (r: DecodeResult)
    ensures
        decode_allows(image@, r@),
{
    match read_png(image) {
        Ok(frame) => image_from_frame(frame),
        Err(e) => {
            let k = failure_of(e);
            DecodeResult::Error(failure_message(k))
        },
    }
}

/// A decoder that runs in the calling process, with no isolation.
pub struct LocalDecoder;

impl LocalDecoder {
    /// Decodes `compressed` in this process; the call itself never fails.
    pub fn decode(&mut self, compressed: Vec<u8>) -> (r: Result<DecodeResult, ChannelError>)
        ensures
            r matches Ok(o) && decode_allows(compressed@, o@),
    {
        Ok(decode_from_memory(compressed.as_slice()))
    }
}

/// A stream that the decoder accepts, with an 8-bit gray, gray+alpha, RGB or
/// RGBA frame (palettes having been expanded to RGB) whose rows match its
/// width, whose data covers its grid, and whose RGBA form is addressable,
/// decodes to an RGBA image of the frame's size with four bytes per pixel:
/// color samples are kept, gray is copied into red, green and blue, and a
/// missing alpha is opaque.
pub proof fn lemma_supported_stream_gives_rgba(data: Seq<u8>, o: OutcomeModel)
    requires
        decode_allows(data, o),
        png_output(data) matches Some(f) && spec_samples(f.color, f.depth) matches Some(ch) && {
            let n = f.width as nat * f.height as nat;
            &&& f.line_size == f.width as nat * ch
            &&& n * ch <= f.data.len()
            &&& n * 4 <= usize::MAX
        },
    ensures
        o matches OutcomeModel::Image(m) && {
            let f = png_output(data)->Some_0;
            let ch = spec_samples(f.color, f.depth)->Some_0;
            &&& m.width == f.width
            &&& m.height == f.height
            &&& m.pixels.tag == 3
            &&& m.pixels.bytes.len() == f.width as nat * f.height as nat * 4
            &&& m.pixels.bytes == to_rgba(ch, f.data, f.width as nat * f.height as nat)
        },
{
}

/// Every stream yields an error, never an image, where the decoder rejects it
/// (the data ends before what its header announces, or is not PNG), or where
/// its frame holds fewer bytes than its declared dimensions need.
pub proof fn lemma_short_or_rejected_stream_is_error(data: Seq<u8>, o: OutcomeModel)
    requires
        decode_allows(data, o),
        png_output(data) matches Some(f) ==> spec_samples(f.color, f.depth) matches Some(ch)
            && f.width as nat * f.height as nat * ch > f.data.len(),
    ensures
        o is Error,
{
}

} // verus!
