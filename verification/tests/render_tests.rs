use svglite::backend::{Blend, FillRule, Op, Quality, RenderError, TraceEntry, Warning};
use svglite::paint::{Fill, Paint, Rgb};
use svglite::path::PathCmd;
use svglite::scene::{ImageKind, ImageNode, Node, NodeKind, PathNode, TextNode, TextResolved, Tree};
use svglite::transform::{Rect, Scalar, Transform};
use svglite::path::Segment;
use svglite::walker::{RenderConfig, svglite_render};

fn s(n: i64) -> Scalar {
    Scalar::from_int(n)
}

fn identity() -> Transform {
    Transform { a: 1, b: 0, c: 0, d: 1, e: 0, f: 0, den: 1 }
}

fn cfg() -> RenderConfig {
    RenderConfig { fill_rule: FillRule::NonZero, blend: Blend::NoBlend, quality: Quality::High }
}

fn rect(x: i64, y: i64, w: i64, h: i64) -> Rect {
    Rect { x: s(x), y: s(y), width: s(w), height: s(h) }
}

fn rect_segments(w: i64, h: i64) -> Vec<Segment> {
    vec![
        Segment::MoveTo { x: s(0), y: s(0) },
        Segment::LineTo { x: s(w), y: s(0) },
        Segment::LineTo { x: s(w), y: s(h) },
        Segment::LineTo { x: s(0), y: s(h) },
        Segment::ClosePath,
    ]
}

fn red_path_node(w: i64, h: i64) -> Node {
    Node {
        transform: identity(),
        kind: NodeKind::Path(PathNode {
            visible: true,
            data: rect_segments(w, h),
            fill: Some(Fill { paint: Paint::Color(Rgb { red: 255, green: 0, blue: 0 }), opacity: 255 }),
            stroke: None,
            bbox: Some(rect(0, 0, w, h)),
        }),
        children: vec![],
    }
}

/// A tiny reference executor for axis-aligned rectangle fills: it
/// paints each solid draw whose path is a rectangle, mapped through
/// the draw's matrix, onto a pixel grid of packed color words.
fn run_trace(trace: &[TraceEntry], width: usize, height: usize) -> Vec<u32> {
    let mut pixels = vec![0u32; width * height];
    for e in trace {
        if let Op::Draw { path, matrix, color, .. } = &e.op {
            let mut xs: Vec<f64> = Vec::new();
            let mut ys: Vec<f64> = Vec::new();
            for cmd in path {
                match cmd {
                    PathCmd::Move { x, y } | PathCmd::Line { x, y } => {
                        let fx = x.num as f64 / x.den as f64;
                        let fy = y.num as f64 / y.den as f64;
                        let den = matrix.den as f64;
                        xs.push((matrix.a as f64 * fx + matrix.c as f64 * fy + matrix.e as f64) / den);
                        ys.push((matrix.b as f64 * fx + matrix.d as f64 * fy + matrix.f as f64) / den);
                    },
                    _ => {},
                }
            }
            if xs.is_empty() {
                continue;
            }
            let x0 = xs.iter().cloned().fold(f64::INFINITY, f64::min).max(0.0) as usize;
            let x1 = (xs.iter().cloned().fold(f64::NEG_INFINITY, f64::max) as usize).min(width);
            let y0 = ys.iter().cloned().fold(f64::INFINITY, f64::min).max(0.0) as usize;
            let y1 = (ys.iter().cloned().fold(f64::NEG_INFINITY, f64::max) as usize).min(height);
            for y in y0..y1 {
                for x in x0..x1 {
                    pixels[y * width + x] = *color;
                }
            }
        }
    }
    pixels
}

#[test]
fn full_canvas_red_path_covers_target() {
    // one opaque-red path filling the whole canvas: after the render,
    // every output pixel is opaque red
    let (w, h) = (8i64, 5i64);
    let tree = Tree { view_box: rect(0, 0, w, h), root: red_path_node(w, h) };
    let (r, trace, _) = svglite_render(0, w, h, &tree, &cfg(), false, vec![]);
    assert!(r.is_ok());
    assert_eq!(trace.len(), 2);
    match &trace[0].op {
        Op::Draw { color, .. } => assert_eq!(*color, 0xFFFF0000),
        other => panic!("expected the solid draw, got {:?}", other),
    }
    assert!(matches!(trace[1].op, Op::Finish));
    let pixels = run_trace(&trace, w as usize, h as usize);
    assert!(pixels.iter().all(|p| *p == 0xFFFF0000));
}

fn nested_svg_image() -> Node {
    Node {
        transform: identity(),
        kind: NodeKind::Image(ImageNode {
            visible: true,
            view_box: rect(0, 0, 4, 4),
            kind: ImageKind::Svg(Box::new(Node {
                transform: identity(),
                kind: NodeKind::Group,
                children: vec![],
            })),
        }),
        children: vec![],
    }
}

fn count_pairs(trace: &[TraceEntry]) -> (usize, usize) {
    let mut allocs = 0usize;
    let mut frees = 0usize;
    for e in trace {
        match e.op {
            Op::Allocate { .. } => {
                if e.status == 0 {
                    allocs += 1;
                }
            },
            Op::Free { .. } => frees += 1,
            _ => {},
        }
    }
    (allocs, frees)
}

#[test]
fn nested_images_alloc_free_balanced() {
    // three nested image elements, the blit of the third forced to
    // fail: exactly three allocate/free pairs, no leaked buffer
    let tree = Tree {
        view_box: rect(0, 0, 4, 4),
        root: Node {
            transform: identity(),
            kind: NodeKind::Group,
            children: vec![nested_svg_image(), nested_svg_image(), nested_svg_image()],
        },
    };
    // each image emits Allocate, Finish, Blit, Free; the third blit is
    // op index 10
    let mut oracle = vec![0u32; 11];
    oracle[10] = 5;
    let (r, trace, _) = svglite_render(0, 4, 4, &tree, &cfg(), false, oracle);
    assert_eq!(r, Err(RenderError::Backend(5)));
    let (allocs, frees) = count_pairs(&trace);
    assert_eq!(allocs, 3);
    assert_eq!(frees, 3);
}

#[test]
fn alloc_failure_has_no_free() {
    let tree = Tree { view_box: rect(0, 0, 4, 4), root: nested_svg_image() };
    let oracle = vec![7u32];
    let (r, trace, _) = svglite_render(0, 4, 4, &tree, &cfg(), false, oracle);
    assert_eq!(r, Err(RenderError::Backend(7)));
    let (allocs, frees) = count_pairs(&trace);
    assert_eq!(allocs, 0);
    assert_eq!(frees, 0);
    assert_eq!(trace.len(), 1);
}

#[test]
fn backend_failure_aborts_remaining_siblings() {
    // the first child's draw fails: the second child is never drawn
    let tree = Tree {
        view_box: rect(0, 0, 4, 4),
        root: Node {
            transform: identity(),
            kind: NodeKind::Group,
            children: vec![red_path_node(4, 4), red_path_node(4, 4)],
        },
    };
    let oracle = vec![3u32];
    let (r, trace, _) = svglite_render(0, 4, 4, &tree, &cfg(), false, oracle);
    assert_eq!(r, Err(RenderError::Backend(3)));
    assert_eq!(trace.len(), 1);
}

#[test]
fn text_without_fontdb_warns_and_skips() {
    let tree = Tree {
        view_box: rect(0, 0, 4, 4),
        root: Node {
            transform: identity(),
            kind: NodeKind::Text(TextNode { resolved: TextResolved::NoFont }),
            children: vec![],
        },
    };
    let (r, trace, warnings) = svglite_render(0, 4, 4, &tree, &cfg(), true, vec![]);
    assert!(r.is_ok());
    assert_eq!(trace.len(), 1);
    assert_eq!(warnings, vec![Warning::TextWithoutFontDatabase]);
}

#[test]
fn unconvertible_text_is_unsupported() {
    let tree = Tree {
        view_box: rect(0, 0, 4, 4),
        root: Node {
            transform: identity(),
            kind: NodeKind::Text(TextNode { resolved: TextResolved::Unconvertible }),
            children: vec![],
        },
    };
    let (r, _, _) = svglite_render(0, 4, 4, &tree, &cfg(), true, vec![]);
    assert_eq!(r, Err(RenderError::UnsupportedFeature));
}

#[test]
fn converted_text_renders_as_paths() {
    let outline = Node {
        transform: identity(),
        kind: NodeKind::Group,
        children: vec![red_path_node(4, 4)],
    };
    let tree = Tree {
        view_box: rect(0, 0, 4, 4),
        root: Node {
            transform: identity(),
            kind: NodeKind::Text(TextNode { resolved: TextResolved::Outline(Box::new(outline)) }),
            children: vec![],
        },
    };
    let (r, trace, warnings) = svglite_render(0, 4, 4, &tree, &cfg(), true, vec![]);
    assert!(r.is_ok());
    assert_eq!(trace.len(), 2);
    assert!(matches!(trace[0].op, Op::Draw { .. }));
    assert!(warnings.is_empty());
}

#[test]
fn missing_bbox_skips_with_warning() {
    let mut node = red_path_node(4, 4);
    if let NodeKind::Path(p) = &mut node.kind {
        p.bbox = None;
    }
    let tree = Tree { view_box: rect(0, 0, 4, 4), root: node };
    let (r, trace, warnings) = svglite_render(0, 4, 4, &tree, &cfg(), false, vec![]);
    assert!(r.is_ok());
    assert_eq!(trace.len(), 1);
    assert_eq!(warnings, vec![Warning::PathWithoutBoundingBox]);
}

#[test]
fn invisible_path_emits_nothing() {
    let mut node = red_path_node(4, 4);
    if let NodeKind::Path(p) = &mut node.kind {
        p.visible = false;
    }
    let tree = Tree { view_box: rect(0, 0, 4, 4), root: node };
    let (r, trace, warnings) = svglite_render(0, 4, 4, &tree, &cfg(), false, vec![]);
    assert!(r.is_ok());
    assert_eq!(trace.len(), 1);
    assert!(warnings.is_empty());
}

#[test]
fn quadratic_segments_become_cubics() {
    // a quadratic segment is degree-elevated before encoding
    let node = Node {
        transform: identity(),
        kind: NodeKind::Path(PathNode {
            visible: true,
            data: vec![
                Segment::MoveTo { x: s(0), y: s(0) },
                Segment::QuadTo { qx: s(3), qy: s(6), x: s(6), y: s(0) },
                Segment::ClosePath,
            ],
            fill: Some(Fill { paint: Paint::Color(Rgb { red: 1, green: 2, blue: 3 }), opacity: 255 }),
            stroke: None,
            bbox: Some(rect(0, 0, 6, 6)),
        }),
        children: vec![],
    };
    let tree = Tree { view_box: rect(0, 0, 6, 6), root: node };
    let (r, trace, _) = svglite_render(0, 6, 6, &tree, &cfg(), false, vec![]);
    assert!(r.is_ok());
    match &trace[0].op {
        Op::Draw { path, .. } => {
            assert_eq!(path.len(), 4); // Move, Cubic, Close, End
            match &path[1] {
                PathCmd::Cubic { x1, y1, x2, y2, x, y } => {
                    // control points (0 + 2*3)/3 = 2 and (6 + 2*3)/3 = 4
                    assert_eq!((x1.num as i128) * 1, 2 * (x1.den as i128));
                    assert_eq!((y1.num as i128) * 1, 4 * (y1.den as i128));
                    assert_eq!((x2.num as i128) * 1, 4 * (x2.den as i128));
                    assert_eq!((y2.num as i128) * 1, 4 * (y2.den as i128));
                    assert_eq!((x.num, x.den), (6, 1));
                    assert_eq!((y.num, y.den), (0, 1));
                },
                other => panic!("expected a cubic, got {:?}", other),
            }
            assert!(matches!(path[3], PathCmd::End));
        },
        other => panic!("expected the draw, got {:?}", other),
    }
}

#[test]
fn zero_size_viewbox_is_malformed() {
    let tree = Tree { view_box: rect(0, 0, 0, 4), root: red_path_node(4, 4) };
    let (r, trace, _) = svglite_render(0, 4, 4, &tree, &cfg(), false, vec![]);
    assert_eq!(r, Err(RenderError::MalformedInput));
    assert!(trace.is_empty());
}

#[test]
fn transform_overflow_is_out_of_range() {
    let mut node = red_path_node(4, 4);
    node.transform = Transform { a: i64::MAX, b: 0, c: 0, d: i64::MAX, e: 0, f: 0, den: 1 };
    let inner = Node { transform: node.transform, kind: NodeKind::Group, children: vec![node] };
    let tree = Tree { view_box: rect(0, 0, 4, 4), root: inner };
    let (r, _, _) = svglite_render(0, 4, 4, &tree, &cfg(), false, vec![]);
    assert_eq!(r, Err(RenderError::OutOfRange));
}

#[test]
fn image_tail_flushes_before_blit() {
    // the nested buffer's work is flushed before the blit reads it,
    // and the buffer is freed last
    let tree = Tree { view_box: rect(0, 0, 4, 4), root: nested_svg_image() };
    let (r, trace, _) = svglite_render(0, 4, 4, &tree, &cfg(), false, vec![]);
    assert!(r.is_ok());
    // Allocate, Finish, Blit, Free for the image; one final Finish
    assert_eq!(trace.len(), 5);
    assert!(matches!(trace[0].op, Op::Allocate { .. }));
    assert!(matches!(trace[1].op, Op::Finish));
    assert!(matches!(trace[2].op, Op::Blit { .. }));
    assert!(matches!(trace[3].op, Op::Free { .. }));
    assert!(matches!(trace[4].op, Op::Finish));
}
