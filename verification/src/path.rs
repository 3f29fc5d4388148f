//! Path geometry and its encoding into the rasterizer's command
//! stream: one tagged record per segment, a `Close` record per closed
//! subpath, and a terminating `End` sentinel. Records carry an explicit
//! discriminant and rational payload; opcode markers are never mixed
//! into the coordinate values. Quadratic segments are not a native
//! record kind: they are degree-elevated to cubics before encoding.

use vstd::prelude::*;

use crate::transform::in_i64;
use crate::transform::Scalar;

verus! {

/// One segment of a path, in the path's local coordinate space.
#[derive(Debug, Clone, Copy, PartialEq, Eq, Structural)]
pub enum Segment {
    MoveTo { x: Scalar, y: Scalar },
    LineTo { x: Scalar, y: Scalar },
    QuadTo { qx: Scalar, qy: Scalar, x: Scalar, y: Scalar },
    CubicTo { x1: Scalar, y1: Scalar, x2: Scalar, y2: Scalar, x: Scalar, y: Scalar },
    ClosePath,
}

/// One record of the encoded command stream.
#[derive(Debug, Clone, Copy, PartialEq, Eq, Structural)]
pub enum PathCmd {
    Move { x: Scalar, y: Scalar },
    Line { x: Scalar, y: Scalar },
    Cubic { x1: Scalar, y1: Scalar, x2: Scalar, y2: Scalar, x: Scalar, y: Scalar },
    Close,
    End,
}

/// Whether a segment is quadratic.
pub open spec fn is_quad(s: Segment) -> bool {
    s is QuadTo
}

/// Whether a segment sequence holds no quadratic segment.
pub open spec fn quad_free(segs: Seq<Segment>) -> bool {
    forall|i: int| 0 <= i < segs.len() ==> !is_quad(segs[i])
}

/// The records of one non-quadratic segment.
pub open spec fn spec_encode_seg(s: Segment) -> Seq<PathCmd> {
    match s {
        Segment::MoveTo { x, y } => seq![PathCmd::Move { x, y }],
        Segment::LineTo { x, y } => seq![PathCmd::Line { x, y }],
        Segment::QuadTo { .. } => seq![],
        Segment::CubicTo { x1, y1, x2, y2, x, y } => seq![PathCmd::Cubic { x1, y1, x2, y2, x, y }],
        Segment::ClosePath => seq![PathCmd::Close],
    }
}

/// The records of a segment sequence, without the final sentinel.
pub open spec fn spec_encode_body(segs: Seq<Segment>) -> Seq<PathCmd>
    decreases segs.len(),
{
    if segs.len() == 0 {
        seq![]
    } else {
        spec_encode_seg(segs[0]) + spec_encode_body(segs.skip(1))
    }
}

/// The full command stream of a segment sequence: one record per
/// segment, then the `End` sentinel.
pub open spec fn spec_encode(segs: Seq<Segment>) -> Seq<PathCmd> {
    spec_encode_body(segs) + seq![PathCmd::End]
}

proof fn lemma_encode_body_snoc(segs: Seq<Segment>, i: int)
    requires
        0 <= i < segs.len(),
    ensures
        spec_encode_body(segs.take(i + 1)) == spec_encode_body(segs.take(i)) + spec_encode_seg(
            segs[i],
        ),
    decreases i,
{
    let a = segs.take(i + 1);
    let b = segs.take(i);
    if i == 0 {
        assert(a.len() == 1);
        assert(a[0] == segs[0]);
        assert(a.skip(1) =~= seq![]);
        assert(b =~= seq![]);
        assert(spec_encode_body(a) == spec_encode_seg(segs[0]) + spec_encode_body(a.skip(1)));
        assert(spec_encode_body(a.skip(1)) =~= seq![]);
        assert(spec_encode_seg(segs[0]) + seq![] =~= spec_encode_seg(segs[0]));
    } else {
        lemma_encode_body_snoc(segs.skip(1), i - 1);
        assert(a.skip(1) =~= segs.skip(1).take(i));
        assert(b.skip(1) =~= segs.skip(1).take(i - 1));
        assert(segs.skip(1)[i - 1] == segs[i]);
        assert(spec_encode_body(a) == spec_encode_seg(a[0]) + spec_encode_body(a.skip(1)));
        assert(spec_encode_body(b) == spec_encode_seg(b[0]) + spec_encode_body(b.skip(1)));
        assert(a[0] == segs[0]);
        assert(b[0] == segs[0]);
        assert(spec_encode_body(a) =~= spec_encode_body(b) + spec_encode_seg(segs[i]));
    }
}

/// Encodes a quadratic-free segment sequence into the command stream.
pub fn encode_path(segs: &Vec<Segment>) -> (r: Vec<PathCmd>)
    requires
        quad_free(segs@),
    ensures
        r@ == spec_encode(segs@),
{
    let mut out: Vec<PathCmd> = Vec::new();
    let mut i: usize = 0;
    while i < segs.len()
        invariant
            0 <= i <= segs.len(),
            quad_free(segs@),
            out@ == spec_encode_body(segs@.take(i as int)),
        decreases segs.len() - i,
    {
        proof {
            lemma_encode_body_snoc(segs@, i as int);
        }
        match segs[i] {
            Segment::MoveTo { x, y } => {
                out.push(PathCmd::Move { x, y });
            },
            Segment::LineTo { x, y } => {
                out.push(PathCmd::Line { x, y });
            },
            Segment::QuadTo { .. } => {
                proof {
                    assert(!is_quad(segs@[i as int]));
                }
                assert(false);
            },
            Segment::CubicTo { x1, y1, x2, y2, x, y } => {
                out.push(PathCmd::Cubic { x1, y1, x2, y2, x, y });
            },
            Segment::ClosePath => {
                out.push(PathCmd::Close);
            },
        }
        i = i + 1;
    }
    proof {
        assert(segs@.take(segs@.len() as int) =~= segs@);
    }
    out.push(PathCmd::End);
    out
}

/// A cubic control point of the degree elevation of a quadratic curve:
/// the exact rational `(from + 2 * ctrl) / 3`.
pub open spec fn elevated_coord(r: Scalar, from: Scalar, ctrl: Scalar) -> bool {
    &&& r.wf()
    &&& r.num == from.num * ctrl.den + 2 * ctrl.num * from.den
    &&& r.den == 3 * (from.den * ctrl.den)
}

/// Whether every intermediate of the exact `(from + 2 * ctrl) / 3`
/// stays in the 64-bit range.
pub open spec fn elevate_in_range(from: Scalar, ctrl: Scalar) -> bool {
    &&& in_i64(from.num * ctrl.den)
    &&& in_i64(ctrl.num * 2)
    &&& in_i64(ctrl.num * 2 * from.den)
    &&& in_i64(from.num * ctrl.den + ctrl.num * 2 * from.den)
    &&& in_i64(from.den * ctrl.den)
    &&& in_i64(from.den * ctrl.den * 3)
}

/// `(from + 2 * ctrl) / 3`, exactly; `None` exactly when a part of the
/// exact result leaves the 64-bit range.
pub fn elevate_coord(from: Scalar, ctrl: Scalar) -> (r: Option<Scalar>)
    requires
        from.wf(),
        ctrl.wf(),
    ensures
        r is Some <==> elevate_in_range(from, ctrl),
        match r {
            Some(s) => elevated_coord(s, from, ctrl),
            None => true,
        },
{
    let p1 = from.num.checked_mul(ctrl.den)?;
    let p2 = ctrl.num.checked_mul(2)?.checked_mul(from.den)?;
    let n = p1.checked_add(p2)?;
    let d0 = from.den.checked_mul(ctrl.den)?;
    let d = d0.checked_mul(3)?;
    assert(d >= 1 && d == 3 * (from.den * ctrl.den)) by (nonlinear_arith)
        requires
            d0 == from.den * ctrl.den,
            d == d0 * 3,
            from.den >= 1,
            ctrl.den >= 1,
    ;
    assert(n == from.num * ctrl.den + 2 * ctrl.num * from.den) by (nonlinear_arith)
        requires
            p1 == from.num * ctrl.den,
            p2 == (ctrl.num * 2) * from.den,
            n == p1 + p2,
    ;
    Some(Scalar { num: n, den: d })
}

/// Whether `out` is the correct image of segment `s` under quadratic
/// degree elevation, with `(cx, cy)` the current point before `s`: a
/// quadratic becomes the cubic with control points
/// `(cur + 2q) / 3` and `(end + 2q) / 3`; any other segment is kept.
pub open spec fn elevated_seg(out: Segment, s: Segment, cx: Scalar, cy: Scalar) -> bool {
    match s {
        Segment::QuadTo { qx, qy, x, y } => match out {
            Segment::CubicTo { x1, y1, x2, y2, x: ox, y: oy } => {
                &&& elevated_coord(x1, cx, qx)
                &&& elevated_coord(y1, cy, qy)
                &&& elevated_coord(x2, x, qx)
                &&& elevated_coord(y2, y, qy)
                &&& ox == x
                &&& oy == y
            },
            _ => false,
        },
        _ => out == s,
    }
}

/// The state of the pen before segment `i`: the current point and the
/// start of the open subpath, as `(cur_x, cur_y, start_x, start_y)`.
pub open spec fn spec_pen(segs: Seq<Segment>, i: int) -> (Scalar, Scalar, Scalar, Scalar)
    decreases i,
{
    if i <= 0 {
        (
            Scalar { num: 0, den: 1 },
            Scalar { num: 0, den: 1 },
            Scalar { num: 0, den: 1 },
            Scalar { num: 0, den: 1 },
        )
    } else {
        let prev = spec_pen(segs, i - 1);
        match segs[i - 1] {
            Segment::MoveTo { x, y } => (x, y, x, y),
            Segment::LineTo { x, y } => (x, y, prev.2, prev.3),
            Segment::QuadTo { qx: _, qy: _, x, y } => (x, y, prev.2, prev.3),
            Segment::CubicTo { x1: _, y1: _, x2: _, y2: _, x, y } => (x, y, prev.2, prev.3),
            Segment::ClosePath => (prev.2, prev.3, prev.2, prev.3),
        }
    }
}

/// Whether every coordinate of every segment is a well-formed scalar.
pub open spec fn segs_wf(segs: Seq<Segment>) -> bool {
    forall|i: int| 0 <= i < segs.len() ==> seg_wf(#[trigger] segs[i])
}

pub open spec fn seg_wf(s: Segment) -> bool {
    match s {
        Segment::MoveTo { x, y } => x.wf() && y.wf(),
        Segment::LineTo { x, y } => x.wf() && y.wf(),
        Segment::QuadTo { qx, qy, x, y } => qx.wf() && qy.wf() && x.wf() && y.wf(),
        Segment::CubicTo { x1, y1, x2, y2, x, y } => x1.wf() && y1.wf() && x2.wf() && y2.wf()
            && x.wf() && y.wf(),
        Segment::ClosePath => true,
    }
}

/// Whether segment `i`, if quadratic, can be elevated within the
/// 64-bit range, with the pen state it is reached with.
pub open spec fn quad_in_range_at(segs: Seq<Segment>, i: int) -> bool {
    match segs[i] {
        Segment::QuadTo { qx, qy, x, y } => {
            &&& elevate_in_range(spec_pen(segs, i).0, qx)
            &&& elevate_in_range(spec_pen(segs, i).1, qy)
            &&& elevate_in_range(x, qx)
            &&& elevate_in_range(y, qy)
        },
        _ => true,
    }
}

/// Whether every quadratic segment of the sequence can be elevated
/// within the 64-bit range, with the pen state it is reached with.
pub open spec fn quads_in_range(segs: Seq<Segment>) -> bool {
    forall|i: int| 0 <= i < segs.len() ==> #[trigger] quad_in_range_at(segs, i)
}

/// Degree-elevates every quadratic segment to a cubic, keeping every
/// other segment as it is; `None` exactly when an exact elevated
/// coordinate leaves the 64-bit range.
pub fn elevate_quads(segs: &Vec<Segment>) -> (r: Option<Vec<Segment>>)
    requires
        segs_wf(segs@),
    ensures
        r is Some <==> quads_in_range(segs@),
        match r {
            Some(v) => {
                &&& v@.len() == segs@.len()
                &&& quad_free(v@)
                &&& forall|i: int|
                    0 <= i < segs@.len() ==> elevated_seg(
                        #[trigger] v@[i],
                        segs@[i],
                        spec_pen(segs@, i).0,
                        spec_pen(segs@, i).1,
                    )
                &&& (quad_free(segs@) ==> v@ == segs@)
            },
            None => true,
        },
{
    let mut out: Vec<Segment> = Vec::new();
    let mut cx = Scalar::new(0, 1);
    let mut cy = Scalar::new(0, 1);
    let mut sx = Scalar::new(0, 1);
    let mut sy = Scalar::new(0, 1);
    let mut i: usize = 0;
    while i < segs.len()
        invariant
            0 <= i <= segs.len(),
            segs_wf(segs@),
            out@.len() == i,
            quad_free(out@),
            cx.wf(),
            cy.wf(),
            sx.wf(),
            sy.wf(),
            (cx, cy, sx, sy) == spec_pen(segs@, i as int),
            forall|j: int|
                0 <= j < i ==> elevated_seg(
                    #[trigger] out@[j],
                    segs@[j],
                    spec_pen(segs@, j).0,
                    spec_pen(segs@, j).1,
                ),
            forall|j: int| 0 <= j < i ==> #[trigger] quad_in_range_at(segs@, j),
        decreases segs.len() - i,
    {
        let s = segs[i];
        match s {
            Segment::MoveTo { x, y } => {
                out.push(s);
                cx = x;
                cy = y;
                sx = x;
                sy = y;
            },
            Segment::LineTo { x, y } => {
                out.push(s);
                cx = x;
                cy = y;
            },
            Segment::QuadTo { qx, qy, x, y } => {
                proof {
                    assert(is_quad(segs@[i as int]));
                }
                let x1 = match elevate_coord(cx, qx) {
                    Some(v) => v,
                    None => {
                        proof {
                            assert(!quad_in_range_at(segs@, i as int));
                        }
                        return None;
                    },
                };
                let y1 = match elevate_coord(cy, qy) {
                    Some(v) => v,
                    None => {
                        proof {
                            assert(!quad_in_range_at(segs@, i as int));
                        }
                        return None;
                    },
                };
                let x2 = match elevate_coord(x, qx) {
                    Some(v) => v,
                    None => {
                        proof {
                            assert(!quad_in_range_at(segs@, i as int));
                        }
                        return None;
                    },
                };
                let y2 = match elevate_coord(y, qy) {
                    Some(v) => v,
                    None => {
                        proof {
                            assert(!quad_in_range_at(segs@, i as int));
                        }
                        return None;
                    },
                };
                out.push(Segment::CubicTo { x1, y1, x2, y2, x, y });
                proof {
                    assert(quad_in_range_at(segs@, i as int));
                }
                cx = x;
                cy = y;
            },
            Segment::CubicTo { x1: _, y1: _, x2: _, y2: _, x, y } => {
                out.push(s);
                cx = x;
                cy = y;
            },
            Segment::ClosePath => {
                out.push(s);
                cx = sx;
                cy = sy;
            },
        }
        i = i + 1;
    }
    proof {
        if quad_free(segs@) {
            assert forall|j: int| 0 <= j < segs@.len() implies out@[j] == segs@[j] by {
                assert(!is_quad(segs@[j]));
                assert(elevated_seg(out@[j], segs@[j], spec_pen(segs@, j).0, spec_pen(segs@, j).1));
            }
            assert(out@ =~= segs@);
        }
    }
    Some(out)
}

} // verus!
