use svglite::backend::{Blend, FillRule, Op, Quality, RenderError};
use svglite::paint::{
    Angle, Fill, LinearGradientPaint, Paint, Rgb, Stop, Units, gradient_angle, pack_solid_color,
};
use svglite::scene::{Node, NodeKind, PathNode, Tree};
use svglite::transform::{Rect, Scalar, Transform};
use svglite::path::Segment;
use svglite::walker::{RenderConfig, svglite_render};

fn s(n: i64) -> Scalar {
    Scalar::from_int(n)
}

fn identity() -> Transform {
    Transform { a: 1, b: 0, c: 0, d: 1, e: 0, f: 0, den: 1 }
}

fn unit_rect_segments(w: i64, h: i64) -> Vec<Segment> {
    vec![
        Segment::MoveTo { x: s(0), y: s(0) },
        Segment::LineTo { x: s(w), y: s(0) },
        Segment::LineTo { x: s(w), y: s(h) },
        Segment::LineTo { x: s(0), y: s(h) },
        Segment::ClosePath,
    ]
}

fn rect(x: i64, y: i64, w: i64, h: i64) -> Rect {
    Rect { x: s(x), y: s(y), width: s(w), height: s(h) }
}

fn cfg() -> RenderConfig {
    RenderConfig { fill_rule: FillRule::NonZero, blend: Blend::NoBlend, quality: Quality::High }
}

fn path_tree(w: i64, h: i64, fill: Fill) -> Tree {
    Tree {
        view_box: rect(0, 0, w, h),
        root: Node {
            transform: identity(),
            kind: NodeKind::Path(PathNode {
                visible: true,
                data: unit_rect_segments(w, h),
                fill: Some(fill),
                stroke: None,
                bbox: Some(rect(0, 0, w, h)),
            }),
            children: vec![],
        },
    }
}

fn gradient(stops: Vec<Stop>) -> LinearGradientPaint {
    LinearGradientPaint {
        stops,
        x1: s(0),
        y1: s(0),
        x2: s(10),
        y2: s(0),
        units: Units::ObjectBoundingBox,
        transform: identity(),
    }
}

fn stop(offset: u8, r: u8, g: u8, b: u8, a: u8) -> Stop {
    Stop { offset, color: Rgb { red: r, green: g, blue: b }, opacity: a }
}

#[test]
fn solid_color_packs_to_word() {
    // R=10, G=20, B=30, alpha=255 encodes to 0xFF0A141E
    assert_eq!(pack_solid_color(Rgb { red: 10, green: 20, blue: 30 }, 255), 0xFF0A141E);
}

#[test]
fn stop_color_packs_blue_and_red_swapped() {
    // the stop table packs [alpha][blue][green][red]
    let st = stop(0, 10, 20, 30, 255);
    assert_eq!(st.get_u32(), 0xFF1E140A);
}

#[test]
fn gradient_angle_quarter_turns() {
    // (0,0,0,5) -> +90 degrees; (0,0,0,-5) -> -90 degrees
    assert_eq!(gradient_angle(s(0), s(0), s(0), s(5)).unwrap(), Angle::Deg90);
    assert_eq!(gradient_angle(s(0), s(0), s(0), s(-5)).unwrap(), Angle::DegNeg90);
}

#[test]
fn gradient_angle_diagonal_degrees() {
    // (0,0,3,3) -> 45 degrees
    match gradient_angle(s(0), s(0), s(3), s(3)).unwrap() {
        Angle::Atan2Deg { dy, dx } => {
            let deg = (dy.num as f64 / dy.den as f64).atan2(dx.num as f64 / dx.den as f64) * 180.0
                / std::f64::consts::PI;
            assert!((deg - 45.0).abs() < 1e-9);
        },
        other => panic!("expected a direction vector, got {:?}", other),
    }
}

#[test]
fn gradient_stop_overflow_rejected() {
    // more than 16 stops: UnsupportedFeature, no backend call issued
    let stops: Vec<Stop> = (0..17).map(|i| stop(i as u8, 1, 2, 3, 255)).collect();
    let tree = path_tree(10, 10, Fill { paint: Paint::LinearGradient(gradient(stops)), opacity: 255 });
    let (r, trace, _) = svglite_render(0, 10, 10, &tree, &cfg(), false, vec![]);
    assert_eq!(r, Err(RenderError::UnsupportedFeature));
    assert!(trace.is_empty());
}

#[test]
fn gradient_emits_descriptor_lifecycle() {
    let stops: Vec<Stop> = vec![stop(0, 255, 0, 0, 255), stop(255, 0, 0, 255, 255)];
    let tree = path_tree(10, 10, Fill { paint: Paint::LinearGradient(gradient(stops)), opacity: 255 });
    let (r, trace, _) = svglite_render(0, 10, 10, &tree, &cfg(), false, vec![]);
    assert!(r.is_ok());
    assert_eq!(trace.len(), 5);
    assert!(matches!(trace[0].op, Op::InitGradient));
    match &trace[1].op {
        Op::SetGradientStops { offsets, colors } => {
            assert_eq!(offsets, &vec![0u32, 255u32]);
            assert_eq!(colors, &vec![0xFF0000FFu32, 0xFFFF0000u32]);
        },
        other => panic!("expected the stop table, got {:?}", other),
    }
    assert!(matches!(trace[2].op, Op::UpdateGradient));
    match &trace[3].op {
        Op::DrawGradient { fill_rule, .. } => assert_eq!(*fill_rule, FillRule::EvenOdd),
        other => panic!("expected the gradient draw, got {:?}", other),
    }
    assert!(matches!(trace[4].op, Op::Finish));
}

#[test]
fn radial_gradient_draws_nothing() {
    let tree = path_tree(10, 10, Fill { paint: Paint::RadialGradient, opacity: 255 });
    let (r, trace, _) = svglite_render(0, 10, 10, &tree, &cfg(), false, vec![]);
    assert!(r.is_ok());
    assert_eq!(trace.len(), 1);
    assert!(matches!(trace[0].op, Op::Finish));
}

#[test]
fn pattern_draws_nothing() {
    let tree = path_tree(10, 10, Fill { paint: Paint::Pattern, opacity: 255 });
    let (r, trace, _) = svglite_render(0, 10, 10, &tree, &cfg(), false, vec![]);
    assert!(r.is_ok());
    assert_eq!(trace.len(), 1);
}

#[test]
fn user_space_gradient_placement_kept_exact() {
    let stops: Vec<Stop> = vec![stop(0, 255, 0, 0, 255), stop(255, 0, 0, 255, 255)];
    let mut g = gradient(stops);
    g.units = Units::UserSpaceOnUse;
    g.x1 = s(2);
    g.y1 = s(3);
    g.x2 = s(12);
    g.y2 = s(3);
    let tree = path_tree(10, 10, Fill { paint: Paint::LinearGradient(g), opacity: 255 });
    let (r, trace, _) = svglite_render(0, 10, 10, &tree, &cfg(), false, vec![]);
    assert!(r.is_ok());
    match &trace[3].op {
        Op::DrawGradient { placement, .. } => match placement {
            svglite::paint::GradientPlacement::UserSpace { x1, y1, angle, s: sc, .. } => {
                assert_eq!((x1.num, x1.den), (2, 1));
                assert_eq!((y1.num, y1.den), (3, 1));
                // a horizontal axis: atan2(0, 10), zero degrees
                match angle {
                    svglite::paint::Angle::Atan2Deg { dy, dx } => {
                        assert_eq!(dy.num, 0);
                        assert_eq!(dx.num, 10);
                    },
                    other => panic!("expected a direction vector, got {:?}", other),
                }
                // scale factor (x2 - x1) / 255 = 10/255
                assert_eq!((sc.num as i128) * 255, 10i128 * (sc.den as i128));
            },
            other => panic!("expected a user-space placement, got {:?}", other),
        },
        other => panic!("expected the gradient draw, got {:?}", other),
    }
}
