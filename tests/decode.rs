use pngbox::engine::{expand_to_rgba, failure_message, image_from_frame, samples_per_pixel};
use pngbox::{decode_from_memory, DecodeResult, LocalDecoder, PixelsByColorType, PngFailure, RawFrame};

fn encode_png(
    width: u32,
    height: u32,
    color: png::ColorType,
    depth: png::BitDepth,
    palette: Option<Vec<u8>>,
    trns: Option<Vec<u8>>,
    data: &[u8],
) -> Vec<u8> {
    let mut out: Vec<u8> = Vec::new();
    {
        let mut encoder = png::Encoder::new(&mut out, width, height);
        encoder.set_color(color);
        encoder.set_depth(depth);
        if let Some(p) = palette {
            encoder.set_palette(p);
        }
        if let Some(t) = trns {
            encoder.set_trns(t);
        }
        let mut writer = encoder.write_header().unwrap();
        writer.write_image_data(data).unwrap();
        writer.finish().unwrap();
    }
    out
}

fn rgba_of(result: DecodeResult) -> (u32, u32, Vec<u8>) {
    match result {
        DecodeResult::Image(image) => match image.pixels {
            PixelsByColorType::RGBA8(px) => (image.width, image.height, px),
            _ => panic!("expected RGBA8"),
        },
        DecodeResult::Error(m) => panic!("{}", m),
    }
}

fn error_of(result: DecodeResult) -> String {
    match result {
        DecodeResult::Error(m) => m,
        DecodeResult::Image(_) => panic!("expected an error"),
    }
}

#[test]
fn rgb_screenshot_size_decodes_to_rgba8() {
    let (w, h) = (831u32, 624u32);
    let data: Vec<u8> = (0..(w * h * 3)).map(|i| (i % 251) as u8).collect();
    let file = encode_png(w, h, png::ColorType::Rgb, png::BitDepth::Eight, None, None, &data);
    let (ow, oh, px) = rgba_of(decode_from_memory(&file));
    assert_eq!((ow, oh), (831, 624));
    assert_eq!(px.len(), 831 * 624 * 4);
    for p in [0usize, 1, 1000, (w * h - 1) as usize] {
        assert_eq!(&px[p * 4..p * 4 + 3], &data[p * 3..p * 3 + 3]);
        assert_eq!(px[p * 4 + 3], 0xFF);
    }
}

#[test]
fn gray_100x100_promotes_to_rgba8() {
    let data: Vec<u8> = (0..10000u32).map(|i| (i % 256) as u8).collect();
    let file = encode_png(100, 100, png::ColorType::Grayscale, png::BitDepth::Eight, None, None, &data);
    let (w, h, px) = rgba_of(decode_from_memory(&file));
    assert_eq!((w, h), (100, 100));
    assert_eq!(px.len(), 100 * 100 * 4);
    assert_eq!(&px[4 * 77..4 * 78], &[77, 77, 77, 0xFF]);
}

#[test]
fn gray_alpha_keeps_alpha() {
    let data = vec![10u8, 20, 30, 40];
    let file = encode_png(2, 1, png::ColorType::GrayscaleAlpha, png::BitDepth::Eight, None, None, &data);
    let (_, _, px) = rgba_of(decode_from_memory(&file));
    assert_eq!(px, vec![10, 10, 10, 20, 30, 30, 30, 40]);
}

#[test]
fn rgba_is_unchanged() {
    let data = vec![1u8, 2, 3, 4, 5, 6, 7, 8];
    let file = encode_png(1, 2, png::ColorType::Rgba, png::BitDepth::Eight, None, None, &data);
    let (w, h, px) = rgba_of(decode_from_memory(&file));
    assert_eq!((w, h), (1, 2));
    assert_eq!(px, data);
}

#[test]
fn palette_with_transparency_becomes_alpha() {
    let palette = vec![255u8, 0, 0, 0, 255, 0];
    let trns = vec![128u8];
    let data = vec![0u8, 1];
    let file = encode_png(2, 1, png::ColorType::Indexed, png::BitDepth::Eight, Some(palette), Some(trns), &data);
    let (_, _, px) = rgba_of(decode_from_memory(&file));
    assert_eq!(px, vec![255, 0, 0, 128, 0, 255, 0, 255]);
}

#[test]
fn sixteen_bit_is_stripped_to_eight() {
    let data = vec![0x12u8, 0x34, 0xAB, 0xCD];
    let file = encode_png(2, 1, png::ColorType::Grayscale, png::BitDepth::Sixteen, None, None, &data);
    let (_, _, px) = rgba_of(decode_from_memory(&file));
    assert_eq!(px, vec![0x12, 0x12, 0x12, 0xFF, 0xAB, 0xAB, 0xAB, 0xFF]);
}

#[test]
fn one_bit_gray_is_expanded() {
    let data = vec![0b1000_0000u8];
    let file = encode_png(2, 1, png::ColorType::Grayscale, png::BitDepth::One, None, None, &data);
    let (_, _, px) = rgba_of(decode_from_memory(&file));
    assert_eq!(px, vec![255, 255, 255, 255, 0, 0, 0, 255]);
}

#[test]
fn empty_input_is_an_error() {
    let m = error_of(decode_from_memory(&[]));
    assert!(m == "truncated input" || m == "error reading png", "{}", m);
}

#[test]
fn truncated_input_is_an_error() {
    let data: Vec<u8> = (0..(64u32 * 64 * 3)).map(|i| (i * 7 % 256) as u8).collect();
    let file = encode_png(64, 64, png::ColorType::Rgb, png::BitDepth::Eight, None, None, &data);
    for cut in [8usize, 20, 40, file.len() / 2, file.len() - 13] {
        let m = error_of(decode_from_memory(&file[..cut]));
        assert!(m == "truncated input" || m == "error reading png", "{}", m);
    }
}

#[test]
fn garbage_is_an_error() {
    let m = error_of(decode_from_memory(b"this is not a png at all"));
    assert_eq!(m, "error reading png");
}

#[test]
fn local_decoder_never_fails_the_call() {
    let file = encode_png(1, 1, png::ColorType::Rgb, png::BitDepth::Eight, None, None, &[9, 8, 7]);
    let mut d = LocalDecoder;
    let (_, _, px) = rgba_of(d.decode(file).unwrap());
    assert_eq!(px, vec![9, 8, 7, 255]);
    assert!(matches!(d.decode(vec![]).unwrap(), DecodeResult::Error(_)));
}

#[test]
fn samples_per_pixel_table() {
    assert_eq!(samples_per_pixel(0, 8), Some(1));
    assert_eq!(samples_per_pixel(4, 8), Some(2));
    assert_eq!(samples_per_pixel(2, 8), Some(3));
    assert_eq!(samples_per_pixel(6, 8), Some(4));
    assert_eq!(samples_per_pixel(3, 8), None);
    assert_eq!(samples_per_pixel(2, 16), None);
    assert_eq!(samples_per_pixel(0, 4), None);
}

#[test]
fn expand_to_rgba_exact_bytes() {
    assert_eq!(expand_to_rgba(1, &[5, 6], 2), vec![5, 5, 5, 255, 6, 6, 6, 255]);
    assert_eq!(expand_to_rgba(2, &[5, 6], 1), vec![5, 5, 5, 6]);
    assert_eq!(expand_to_rgba(3, &[1, 2, 3, 4], 1), vec![1, 2, 3, 255]);
    assert_eq!(expand_to_rgba(4, &[1, 2, 3, 4], 1), vec![1, 2, 3, 4]);
    assert_eq!(expand_to_rgba(3, &[], 0), Vec::<u8>::new());
}

#[test]
fn failure_messages() {
    assert_eq!(failure_message(PngFailure::Truncated), "truncated input");
    assert_eq!(failure_message(PngFailure::Malformed), "error reading png");
    assert_eq!(failure_message(PngFailure::TooLarge), "image too large");
}

fn frame(width: u32, height: u32, color: u8, depth: u8, line_size: usize, data: Vec<u8>) -> RawFrame {
    RawFrame { width, height, color, depth, line_size, data }
}

#[test]
fn frame_with_unsupported_color_is_rejected() {
    let m = error_of(image_from_frame(frame(1, 1, 3, 8, 1, vec![0])));
    assert_eq!(m, "color type not supported");
    let m = error_of(image_from_frame(frame(1, 1, 2, 16, 6, vec![0; 6])));
    assert_eq!(m, "color type not supported");
}

#[test]
fn frame_that_contradicts_its_size_is_rejected() {
    let m = error_of(image_from_frame(frame(2, 2, 2, 8, 5, vec![0; 20])));
    assert_eq!(m, "error reading png");
    let m = error_of(image_from_frame(frame(2, 2, 2, 8, 6, vec![0; 11])));
    assert_eq!(m, "error reading png");
}

#[test]
fn frame_becomes_rgba_image() {
    let (w, h, px) = rgba_of(image_from_frame(frame(1, 2, 4, 8, 2, vec![1, 2, 3, 4])));
    assert_eq!((w, h), (1, 2));
    assert_eq!(px, vec![1, 1, 1, 2, 3, 3, 3, 4]);
}

#[test]
fn zero_sized_frame_gives_empty_image() {
    let (w, h, px) = rgba_of(image_from_frame(frame(0, 5, 0, 8, 0, vec![])));
    assert_eq!((w, h), (0, 5));
    assert!(px.is_empty());
}
