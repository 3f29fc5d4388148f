//! Fill paints: solid colors, linear gradients, and the recognized but
//! unsupported radial-gradient and pattern paints.
//!
//! A solid fill is packed as a 32-bit word laid out
//! `[alpha 31..24][red 23..16][green 15..8][blue 7..0]`. A gradient
//! stop is packed with red and blue swapped, as the backend's stop
//! table expects; the two layouts are deliberately kept apart.

use vstd::prelude::*;

use crate::transform::div_in_range;
use crate::transform::in_i64;
use crate::transform::mul_in_range;
use crate::transform::sub_in_range;
use crate::transform::Rect;
use crate::transform::Scalar;
use crate::transform::Transform;
use crate::transform::TransformModel;

verus! {

/// An 8-bit-per-channel color.
#[derive(Debug, Clone, Copy, PartialEq, Eq, Structural)]
pub struct Rgb {
    pub red: u8,
    pub green: u8,
    pub blue: u8,
}

/// One gradient stop: an offset along the ramp (0 stands for 0.0,
/// 255 for 1.0), a color, and an opacity.
#[derive(Debug, Clone, Copy, PartialEq, Eq, Structural)]
pub struct Stop {
    pub offset: u8,
    pub color: Rgb,
    pub opacity: u8,
}

/// The coordinate space of gradient coordinates.
#[derive(Debug, Clone, Copy, PartialEq, Eq, Structural)]
pub enum Units {
    UserSpaceOnUse,
    ObjectBoundingBox,
}

/// A linear gradient paint.
#[derive(Debug, Clone, PartialEq)]
pub struct LinearGradientPaint {
    pub stops: Vec<Stop>,
    pub x1: Scalar,
    pub y1: Scalar,
    pub x2: Scalar,
    pub y2: Scalar,
    pub units: Units,
    pub transform: Transform,
}

/// A fill paint.
#[derive(Debug, Clone, PartialEq)]
pub enum Paint {
    Color(Rgb),
    LinearGradient(LinearGradientPaint),
    RadialGradient,
    Pattern,
}

/// A fill: a paint and a fill opacity.
#[derive(Debug, Clone, PartialEq)]
pub struct Fill {
    pub paint: Paint,
    pub opacity: u8,
}

/// The most stops a gradient descriptor can hold.
pub const MAX_GRADIENT_STOPS: usize = 16;

/// The angle of a gradient axis, in degrees. A vertical axis is one of
/// the two exact quarter turns; any other axis keeps its exact
/// direction vector, whose angle is `atan2(dy, dx)` in degrees.
#[derive(Debug, Clone, Copy, PartialEq, Eq, Structural)]
pub enum Angle {
    Deg90,
    DegNeg90,
    Atan2Deg { dy: Scalar, dx: Scalar },
}

/// The packed-word value of a solid fill:
/// `[alpha][red][green][blue]` from high byte to low byte.
pub open spec fn spec_pack_solid(color: Rgb, opacity: u8) -> int {
    opacity * 0x100_0000 + color.red * 0x1_0000 + color.green * 0x100 + color.blue
}

/// The packed-word value of a gradient stop's color:
/// `[alpha][blue][green][red]` from high byte to low byte.
pub open spec fn spec_pack_stop(s: Stop) -> int {
    s.opacity * 0x100_0000 + s.color.blue * 0x1_0000 + s.color.green * 0x100 + s.color.red
}

/// Packs a solid fill color and its opacity for the backend's draw
/// call: alpha in the top byte, then red, green, blue.
pub fn pack_solid_color(color: Rgb, opacity: u8) -> (r: u32)
    ensures
        r == spec_pack_solid(color, opacity),
{
    let a: u32 = opacity as u32;
    let red: u32 = color.red as u32;
    let g: u32 = color.green as u32;
    let b: u32 = color.blue as u32;
    let packed: u32 = (a << 24) | (red << 16) | (g << 8) | b;
    proof {
        assert((a << 24) | (red << 16) | (g << 8) | b == a * 0x100_0000 + red * 0x1_0000 + g
            * 0x100 + b) by (bit_vector)
            requires
                a < 256,
                red < 256,
                g < 256,
                b < 256,
        ;
    }
    packed
}

impl Stop {
    /// Packs the stop's color for the backend's stop table: alpha in
    /// the top byte, then blue, green, red. Note the red/blue order
    /// differs from the solid-fill packing.
    pub fn get_u32(&self) -> (r: u32)
        ensures
            r == spec_pack_stop(*self),
    {
        let a: u32 = self.opacity as u32;
        let red: u32 = self.color.red as u32;
        let g: u32 = self.color.green as u32;
        let b: u32 = self.color.blue as u32;
        let packed: u32 = (a << 24) | (b << 16) | (g << 8) | red;
        proof {
            assert((a << 24) | (b << 16) | (g << 8) | red == a * 0x100_0000 + b * 0x1_0000 + g
                * 0x100 + red) by (bit_vector)
                requires
                    a < 256,
                    red < 256,
                    g < 256,
                    b < 256,
            ;
        }
        packed
    }
}

/// What the gradient angle must be for an axis from `(x1, y1)` to
/// `(x2, y2)`: a vertical axis gives an exact quarter turn, +90 degrees
/// when `y2 >= y1` and -90 degrees otherwise; any other axis keeps the
/// exact direction vector `(x2 - x1, y2 - y1)`.
pub open spec fn angle_correct(a: Angle, x1: Scalar, y1: Scalar, x2: Scalar, y2: Scalar) -> bool {
    if x1.eqv(x2) {
        if y2.num * y1.den >= y1.num * y2.den {
            a == Angle::Deg90
        } else {
            a == Angle::DegNeg90
        }
    } else {
        match a {
            Angle::Atan2Deg { dy, dx } => {
                &&& dy.wf()
                &&& dx.wf()
                &&& dy.num == y2.num * y1.den - y1.num * y2.den
                &&& dy.den == y2.den * y1.den
                &&& dx.num == x2.num * x1.den - x1.num * x2.den
                &&& dx.den == x2.den * x1.den
            },
            _ => false,
        }
    }
}

/// Whether the gradient angle's exact direction vector fits in the
/// 64-bit range (vacuous for a vertical axis, whose angle is a quarter
/// turn and needs no subtraction).
pub open spec fn angle_in_range(x1: Scalar, y1: Scalar, x2: Scalar, y2: Scalar) -> bool {
    x1.eqv(x2) || (sub_in_range(y2, y1) && sub_in_range(x2, x1))
}

/// Computes the gradient angle; `None` exactly when an exact
/// coordinate difference leaves the 64-bit range.
pub fn gradient_angle(x1: Scalar, y1: Scalar, x2: Scalar, y2: Scalar) -> (r: Option<Angle>)
    requires
        x1.wf(),
        y1.wf(),
        x2.wf(),
        y2.wf(),
    ensures
        r is Some <==> angle_in_range(x1, y1, x2, y2),
        match r {
            Some(a) => angle_correct(a, x1, y1, x2, y2),
            None => true,
        },
{
    if x1.eq_value(x2) {
        if y2.ge_value(y1) {
            Some(Angle::Deg90)
        } else {
            Some(Angle::DegNeg90)
        }
    } else {
        let dy = y2.checked_sub(y1)?;
        let dx = x2.checked_sub(x1)?;
        Some(Angle::Atan2Deg { dy, dx })
    }
}

/// How a gradient descriptor's placement matrix is to be assembled by
/// the backend. The pieces that are exact rationals are computed here;
/// the one quantity that is not — the scale components the backend
/// extracts from the accumulated transform in the bounding-box case —
/// is handed over symbolically as that transform itself.
#[derive(Debug, Clone, PartialEq)]
pub enum GradientPlacement {
    /// `local ∘ Translate(x1, y1) ∘ Rotate(angle) ∘ Scale(s, s)`.
    UserSpace { local: Transform, x1: Scalar, y1: Scalar, angle: Angle, s: Scalar },
    /// `local ∘ Rotate(angle) ∘ Scale(bbox_w·sx·s, bbox_h·sy·s)
    ///  ∘ Translate(x1/s, y1/s)`, with `(sx, sy)` the scale components
    /// of `accum`; the translation is absent when `s` is zero.
    BoundingBox {
        local: Transform,
        angle: Angle,
        s: Scalar,
        scale_x: Scalar,
        scale_y: Scalar,
        accum: Transform,
        translate: Option<(Scalar, Scalar)>,
    },
}

/// Whether `s` denotes exactly `(x2 - x1) / 255`: the gradient's scale
/// factor, the axis length in x mapped onto the 255-unit stop ramp.
pub open spec fn scale_factor_correct(s: Scalar, x1: Scalar, x2: Scalar) -> bool {
    &&& s.wf()
    &&& s.num == x2.num * x1.den - x1.num * x2.den
    &&& s.den == 255 * (x2.den * x1.den)
}

/// Whether the exact `(x2 - x1) / 255` fits in the 64-bit range.
pub open spec fn scale_factor_in_range(x1: Scalar, x2: Scalar) -> bool {
    sub_in_range(x2, x1) && in_i64(x2.den * x1.den * 255)
}

/// `(x2 - x1) / 255`, exactly; `None` exactly when a part of the exact
/// result leaves the 64-bit range.
fn scale_factor(x1: Scalar, x2: Scalar) -> (r: Option<Scalar>)
    requires
        x1.wf(),
        x2.wf(),
    ensures
        r is Some <==> scale_factor_in_range(x1, x2),
        match r {
            Some(s) => scale_factor_correct(s, x1, x2),
            None => true,
        },
{
    let d = x2.checked_sub(x1)?;
    let den = d.den.checked_mul(255)?;
    assert(den >= 1 && den == 255 * (x2.den * x1.den)) by (nonlinear_arith)
        requires
            den == d.den * 255,
            d.den == x2.den * x1.den,
            d.den >= 1,
    ;
    Some(Scalar { num: d.num, den })
}

/// Whether a built placement is the correct one for gradient `g`,
/// accumulated transform `accum` and path bounding box `bbox`.
pub open spec fn placement_correct(
    p: GradientPlacement,
    g: LinearGradientPaint,
    accum: TransformModel,
    bbox: Rect,
) -> bool {
    match g.units {
        Units::UserSpaceOnUse => match p {
            GradientPlacement::UserSpace { local, x1, y1, angle, s } => {
                &&& local == g.transform
                &&& x1 == g.x1
                &&& y1 == g.y1
                &&& angle_correct(angle, g.x1, g.y1, g.x2, g.y2)
                &&& scale_factor_correct(s, g.x1, g.x2)
            },
            _ => false,
        },
        Units::ObjectBoundingBox => match p {
            GradientPlacement::BoundingBox {
                local,
                angle,
                s,
                scale_x,
                scale_y,
                accum: a,
                translate,
            } => {
                &&& local == g.transform
                &&& a@ == accum
                &&& angle_correct(angle, g.x1, g.y1, g.x2, g.y2)
                &&& scale_factor_correct(s, g.x1, g.x2)
                &&& scale_x.wf() && scale_x.num == bbox.width.num * s.num && scale_x.den
                    == bbox.width.den * s.den
                &&& scale_y.wf() && scale_y.num == bbox.height.num * s.num && scale_y.den
                    == bbox.height.den * s.den
                &&& (s.num == 0 ==> translate is None)
                &&& (s.num != 0 ==> match translate {
                    Some((tx, ty)) => {
                        &&& tx.wf() && tx.num * (g.x1.den * s.num) == (g.x1.num * s.den) * tx.den
                        &&& ty.wf() && ty.num * (g.y1.den * s.num) == (g.y1.num * s.den) * ty.den
                    },
                    None => false,
                })
            },
            _ => false,
        },
    }
}

/// Whether every exact intermediate of the gradient placement fits in
/// the 64-bit range, for the given gradient and bounding box.
pub open spec fn placement_in_range(g: LinearGradientPaint, bbox: Rect) -> bool {
    &&& angle_in_range(g.x1, g.y1, g.x2, g.y2)
    &&& scale_factor_in_range(g.x1, g.x2)
    &&& (g.units is ObjectBoundingBox ==> {
        let s = spec_scale_factor(g.x1, g.x2);
        &&& mul_in_range(bbox.width, s)
        &&& mul_in_range(bbox.height, s)
        &&& (s.num != 0 ==> div_in_range(g.x1, s) && div_in_range(g.y1, s))
    })
}

/// The exact scale factor `(x2 - x1) / 255` as a scalar value.
pub open spec fn spec_scale_factor(x1: Scalar, x2: Scalar) -> Scalar {
    Scalar {
        num: (x2.num * x1.den - x1.num * x2.den) as i64,
        den: (255 * (x2.den * x1.den)) as i64,
    }
}

/// Builds the placement of a linear gradient from its coordinates, its
/// coordinate space, the accumulated transform and the path's bounding
/// box; `None` exactly when an exact intermediate leaves the 64-bit
/// range.
pub fn build_gradient_placement(g: &LinearGradientPaint, accum: &Transform, bbox: &Rect) -> (r:
    Option<GradientPlacement>)
    requires
        g.x1.wf(),
        g.y1.wf(),
        g.x2.wf(),
        g.y2.wf(),
        bbox.wf(),
    ensures
        r is Some <==> placement_in_range(*g, *bbox),
        match r {
            Some(p) => placement_correct(p, *g, accum@, *bbox),
            None => true,
        },
{
    let angle = gradient_angle(g.x1, g.y1, g.x2, g.y2)?;
    let s = scale_factor(g.x1, g.x2)?;
    match g.units {
        Units::UserSpaceOnUse => Some(
            GradientPlacement::UserSpace {
                local: g.transform,
                x1: g.x1,
                y1: g.y1,
                angle,
                s,
            },
        ),
        Units::ObjectBoundingBox => {
            let scale_x = bbox.width.checked_mul(s)?;
            let scale_y = bbox.height.checked_mul(s)?;
            let translate: Option<(Scalar, Scalar)> = if s.is_zero() {
                None
            } else {
                let tx = g.x1.checked_div(s)?;
                let ty = g.y1.checked_div(s)?;
                Some((tx, ty))
            };
            Some(
                GradientPlacement::BoundingBox {
                    local: g.transform,
                    angle,
                    s,
                    scale_x,
                    scale_y,
                    accum: *accum,
                    translate,
                },
            )
        },
    }
}

/// The backend's stop table for a gradient: the stop offsets on the
/// 0..=255 ramp and the packed stop colors, in stop order.
pub fn build_stop_tables(stops: &Vec<Stop>) -> (r: (Vec<u32>, Vec<u32>))
    ensures
        r.0@.len() == stops@.len(),
        r.1@.len() == stops@.len(),
        forall|i: int| 0 <= i < stops@.len() ==> r.0@[i] == stops@[i].offset as u32,
        forall|i: int| 0 <= i < stops@.len() ==> r.1@[i] == spec_pack_stop(stops@[i]),
{
    let mut offsets: Vec<u32> = Vec::new();
    let mut colors: Vec<u32> = Vec::new();
    let mut i: usize = 0;
    while i < stops.len()
        invariant
            0 <= i <= stops@.len(),
            offsets@.len() == i,
            colors@.len() == i,
            forall|j: int| 0 <= j < i ==> offsets@[j] == stops@[j].offset as u32,
            forall|j: int| 0 <= j < i ==> colors@[j] == spec_pack_stop(stops@[j]),
        decreases stops@.len() - i,
    {
        offsets.push(stops[i].offset as u32);
        let c = stops[i].get_u32();
        colors.push(c);
        i = i + 1;
    }
    (offsets, colors)
}

} // verus!
