use svglite::backend::{Blend, FillRule, Op, Quality, RenderError};
use svglite::raster::{JpegFormat, convert_rgb24_to_rgb32, normalize_jpeg};
use svglite::scene::{ImageKind, ImageNode, Node, NodeKind, Tree};
use svglite::transform::{Rect, Scalar, Transform};
use svglite::walker::{RenderConfig, svglite_render};

fn s(n: i64) -> Scalar {
    Scalar::from_int(n)
}

fn identity() -> Transform {
    Transform { a: 1, b: 0, c: 0, d: 1, e: 0, f: 0, den: 1 }
}

fn cfg() -> RenderConfig {
    RenderConfig { fill_rule: FillRule::NonZero, blend: Blend::NoBlend, quality: Quality::High }
}

fn image_tree(data: Vec<u8>, kind: fn(Vec<u8>) -> ImageKind) -> Tree {
    Tree {
        view_box: Rect { x: s(0), y: s(0), width: s(4), height: s(4) },
        root: Node {
            transform: identity(),
            kind: NodeKind::Image(ImageNode {
                visible: true,
                view_box: Rect { x: s(0), y: s(0), width: s(4), height: s(4) },
                kind: kind(data),
            }),
            children: vec![],
        },
    }
}

fn encode_png(width: u32, height: u32, color: png::ColorType, depth: png::BitDepth, data: &[u8])
    -> Vec<u8> {
    let mut out: Vec<u8> = Vec::new();
    {
        let mut enc = png::Encoder::new(&mut out, width, height);
        enc.set_color(color);
        enc.set_depth(depth);
        if color == png::ColorType::Indexed {
            enc.set_palette(vec![0u8, 0, 0, 255, 255, 255]);
        }
        let mut writer = enc.write_header().unwrap();
        writer.write_image_data(data).unwrap();
    }
    out
}

#[test]
fn rgb24_to_rgb32_expands() {
    // every source triple keeps its channels in order and gains an
    // opaque alpha byte
    let src = vec![1u8, 2, 3, 4, 5, 6];
    let mut dst = vec![0u8; 8];
    convert_rgb24_to_rgb32(&src, &mut dst);
    assert_eq!(dst, vec![1, 2, 3, 255, 4, 5, 6, 255]);
}

#[test]
fn normalize_l16_zero_fills() {
    let pixels = vec![9u8; 32];
    let out = normalize_jpeg(JpegFormat::L16, &pixels, 16).unwrap();
    assert_eq!(out, vec![0u8; 16]);
}

#[test]
fn normalize_cmyk_zero_fills() {
    let pixels = vec![9u8; 64];
    let out = normalize_jpeg(JpegFormat::Cmyk32, &pixels, 64).unwrap();
    assert_eq!(out, vec![0u8; 64]);
}

#[test]
fn normalize_l8_size_mismatch_is_malformed() {
    let pixels = vec![9u8; 15];
    assert_eq!(normalize_jpeg(JpegFormat::L8, &pixels, 16), Err(RenderError::MalformedInput));
}

#[test]
fn normalize_rgb_size_mismatch_is_malformed() {
    let pixels = vec![9u8; 11];
    assert_eq!(normalize_jpeg(JpegFormat::Rgb24, &pixels, 16), Err(RenderError::MalformedInput));
}

#[test]
fn png_16bit_gray_rejected_without_draw() {
    let data = encode_png(2, 2, png::ColorType::Grayscale, png::BitDepth::Sixteen, &[0u8; 8]);
    let (r, trace, _) = svglite_render(0, 4, 4, &image_tree(data, ImageKind::Png), &cfg(), false, vec![]);
    assert_eq!(r, Err(RenderError::UnsupportedFeature));
    assert!(trace.is_empty());
}

#[test]
fn png_indexed_rejected_without_draw() {
    let data = encode_png(2, 2, png::ColorType::Indexed, png::BitDepth::Eight, &[0u8, 1, 1, 0]);
    let (r, trace, _) = svglite_render(0, 4, 4, &image_tree(data, ImageKind::Png), &cfg(), false, vec![]);
    assert_eq!(r, Err(RenderError::UnsupportedFeature));
    assert!(trace.is_empty());
}

#[test]
fn png_grayscale_alpha_rejected_without_draw() {
    let data = encode_png(2, 2, png::ColorType::GrayscaleAlpha, png::BitDepth::Eight, &[7u8; 8]);
    let (r, trace, _) = svglite_render(0, 4, 4, &image_tree(data, ImageKind::Png), &cfg(), false, vec![]);
    assert_eq!(r, Err(RenderError::UnsupportedFeature));
    assert!(trace.is_empty());
}

#[test]
fn png_rgba_pixels_reach_the_buffer() {
    // a 2x2 RGBA image: the decoded bytes, not the raw file, are
    // written into the transient buffer before the blit
    let raw: Vec<u8> = vec![
        10, 20, 30, 255, 40, 50, 60, 255, 70, 80, 90, 255, 100, 110, 120, 255,
    ];
    let data = encode_png(2, 2, png::ColorType::Rgba, png::BitDepth::Eight, &raw);
    let (r, trace, _) = svglite_render(0, 4, 4, &image_tree(data, ImageKind::Png), &cfg(), false, vec![]);
    assert!(r.is_ok());
    let mut wrote = false;
    for e in &trace {
        if let Op::WritePixels { data, .. } = &e.op {
            assert_eq!(data, &raw);
            wrote = true;
        }
    }
    assert!(wrote);
}

#[test]
fn png_grayscale_pixels_reach_the_buffer() {
    let raw: Vec<u8> = vec![11, 22, 33, 44];
    let data = encode_png(2, 2, png::ColorType::Grayscale, png::BitDepth::Eight, &raw);
    let (r, trace, _) = svglite_render(0, 4, 4, &image_tree(data, ImageKind::Png), &cfg(), false, vec![]);
    assert!(r.is_ok());
    let mut wrote = false;
    for e in &trace {
        if let Op::WritePixels { data, .. } = &e.op {
            assert_eq!(data, &raw);
            wrote = true;
        }
    }
    assert!(wrote);
}

#[test]
fn png_rgb_pixels_expand_to_rgba() {
    let raw: Vec<u8> = vec![1, 2, 3, 4, 5, 6, 7, 8, 9, 10, 11, 12];
    let data = encode_png(2, 2, png::ColorType::Rgb, png::BitDepth::Eight, &raw);
    let (r, trace, _) = svglite_render(0, 4, 4, &image_tree(data, ImageKind::Png), &cfg(), false, vec![]);
    assert!(r.is_ok());
    let mut wrote = false;
    for e in &trace {
        if let Op::WritePixels { data, .. } = &e.op {
            assert_eq!(
                data,
                &vec![1u8, 2, 3, 255, 4, 5, 6, 255, 7, 8, 9, 255, 10, 11, 12, 255]
            );
            wrote = true;
        }
    }
    assert!(wrote);
}

#[test]
fn jpeg_invalid_bytes_unsupported() {
    let data = vec![0u8, 1, 2, 3];
    let (r, trace, _) = svglite_render(0, 4, 4, &image_tree(data, ImageKind::Jpeg), &cfg(), false, vec![]);
    assert_eq!(r, Err(RenderError::UnsupportedFeature));
    assert!(trace.is_empty());
}

#[test]
fn gif_unsupported() {
    let data = vec![b'G', b'I', b'F'];
    let (r, trace, _) = svglite_render(0, 4, 4, &image_tree(data, ImageKind::Gif), &cfg(), false, vec![]);
    assert_eq!(r, Err(RenderError::UnsupportedFeature));
    assert!(trace.is_empty());
}
