//! The scene walker: a recursive depth-first traversal in document
//! order that compiles the scene graph into the backend's operation
//! trace. Group children fail fast on the first error; paths resolve
//! their fill; images render or decode into a transient buffer that is
//! flushed, blitted and freed on every exit path; text runs re-enter
//! the walk as outlines with further text conversion withheld.
//!
//! What the walk emits is fixed exactly by `walk_rel`, a recursive
//! relation from a node, the accumulated transform, the status oracle
//! position and the next transient-buffer id to the emitted trace, the
//! result and the warnings — `dfs` ensures it, and `svglite_render`
//! ties the whole render to it under the viewbox matrix.

use vstd::prelude::*;

use crate::backend::alloc_ids;
use crate::backend::balanced;
use crate::backend::entry_alloc_id;
use crate::backend::entry_free_id;
use crate::backend::free_ids;
use crate::backend::lemma_alloc_ids_concat;
use crate::backend::lemma_ids_push;
use crate::backend::status_at;
use crate::backend::Blend;
use crate::backend::BufFormat;
use crate::backend::Emitter;
use crate::backend::Filter;
use crate::backend::FillRule;
use crate::backend::Op;
use crate::backend::Quality;
use crate::backend::RenderError;
use crate::backend::TraceEntry;
use crate::backend::Warning;
use crate::backend::STATUS_OK;
use crate::paint::build_gradient_placement;
use crate::paint::build_stop_tables;
use crate::paint::pack_solid_color;
use crate::paint::placement_correct;
use crate::paint::placement_in_range;
use crate::paint::spec_pack_solid;
use crate::paint::spec_pack_stop;
use crate::paint::LinearGradientPaint;
use crate::paint::Paint;
use crate::paint::MAX_GRADIENT_STOPS;
use crate::path::elevate_quads;
use crate::path::elevated_seg;
use crate::path::encode_path;
use crate::path::quad_free;
use crate::path::quads_in_range;
use crate::path::spec_encode;
use crate::path::spec_pen;
use crate::path::PathCmd;
use crate::path::Segment;
use crate::raster::expand_rgb24;
use crate::raster::jpeg_buffer_format;
use crate::raster::jpeg_decode_pixels;
use crate::raster::jpeg_info_of;
use crate::raster::jpeg_pixels_of;
use crate::raster::jpeg_read_info;
use crate::raster::normalize_jpeg;
use crate::raster::pad_to;
use crate::raster::png_decode_pixels;
use crate::raster::png_info_of;
use crate::raster::png_pixels_of;
use crate::raster::png_read_info;
use crate::raster::rgb_expanded;
use crate::raster::spec_jpeg_buffer_format;
use crate::raster::JpegFormat;
use crate::raster::PngColor;
use crate::raster::PngInfo;
use crate::scene::kind_wf;
use crate::scene::node_wf;
use crate::scene::path_node_wf;
use crate::scene::tree_wf;
use crate::scene::ImageKind;
use crate::scene::Node;
use crate::scene::NodeKind;
use crate::scene::PathNode;
use crate::scene::TextResolved;
use crate::scene::Tree;
use crate::transform::compose_model;
use crate::transform::identity_model;
use crate::transform::model_in_range;
use crate::transform::spec_trunc;
use crate::transform::translation_in_range;
use crate::transform::translation_model;
use crate::transform::viewbox_in_range;
use crate::transform::viewbox_matrix;
use crate::transform::viewbox_model;
use crate::transform::in_i64;
use crate::transform::Rect;
use crate::transform::Scalar;
use crate::transform::Transform;
use crate::transform::TransformModel;
use vstd::multiset::Multiset;

verus! {

/// The per-render configuration handed through the walk.
#[derive(Debug, Clone, Copy, PartialEq, Eq, Structural)]
pub struct RenderConfig {
    pub fill_rule: FillRule,
    pub blend: Blend,
    pub quality: Quality,
}

/// `new` extends `old`: the old sequence is a prefix of the new one.
pub open spec fn extends<T>(old: Seq<T>, new: Seq<T>) -> bool {
    new.len() >= old.len() && new.take(old.len() as int) == old
}

/// What was emitted on top of `old`.
pub open spec fn emitted<T>(old: Seq<T>, new: Seq<T>) -> Seq<T> {
    new.skip(old.len() as int)
}

/// The emitter evolves monotonically: the trace and the warnings only
/// grow, the oracle never changes, ids are never reused.
pub open spec fn evolves(old: Emitter, new: Emitter) -> bool {
    &&& new.wf()
    &&& extends(old.ops@, new.ops@)
    &&& extends(old.warnings@, new.warnings@)
    &&& new.oracle == old.oracle
    &&& new.next_id >= old.next_id
    &&& new.next_id == old.next_id + allocs_in(emitted(old.ops@, new.ops@))
}

/// Everything emitted between `old` and `new` keeps allocations and
/// frees in balance: each successful allocation is freed exactly once.
pub open spec fn emits_balanced(old: Emitter, new: Emitter) -> bool {
    balanced(emitted(old.ops@, new.ops@))
}

/// Every `Allocate` and `Free` entry of the sequence names a transient
/// buffer id in `[lo, hi)`.
pub open spec fn ids_bounded(ops: Seq<TraceEntry>, lo: int, hi: int) -> bool {
    forall|k: int| 0 <= k < ops.len() ==> entry_id_in(#[trigger] ops[k], lo, hi)
}

pub open spec fn entry_id_in(e: TraceEntry, lo: int, hi: int) -> bool {
    match e.op {
        Op::Allocate { id, .. } => lo <= id < hi,
        Op::Free { id } => lo <= id < hi,
        _ => true,
    }
}

/// The number of `Allocate` entries of a trace, successful or not:
/// each consumed one fresh id.
pub open spec fn allocs_in(ops: Seq<TraceEntry>) -> int
    decreases ops.len(),
{
    if ops.len() == 0 {
        0
    } else {
        allocs_in(ops.drop_last()) + (if ops.last().op is Allocate {
            1int
        } else {
            0int
        })
    }
}

proof fn lemma_extends_refl(s: Seq<TraceEntry>)
    ensures
        extends(s, s),
        emitted(s, s) == Seq::<TraceEntry>::empty(),
        alloc_ids(emitted(s, s)) == Multiset::<u64>::empty(),
        free_ids(emitted(s, s)) == Multiset::<u64>::empty(),
        allocs_in(emitted(s, s)) == 0,
{
    assert(s.take(s.len() as int) =~= s);
    assert(emitted(s, s) =~= Seq::<TraceEntry>::empty());
}

proof fn lemma_warn_extends_refl(s: Seq<Warning>)
    ensures
        extends(s, s),
        emitted(s, s) == Seq::<Warning>::empty(),
{
    assert(s.take(s.len() as int) =~= s);
    assert(emitted(s, s) =~= Seq::<Warning>::empty());
}

proof fn lemma_warn_push(old: Seq<Warning>, prev: Seq<Warning>, w: Warning)
    requires
        extends(old, prev),
    ensures
        extends(old, prev.push(w)),
        emitted(old, prev.push(w)) == emitted(old, prev).push(w),
{
    assert(prev.push(w).take(old.len() as int) =~= prev.take(old.len() as int));
    assert(prev.push(w).skip(old.len() as int) =~= prev.skip(old.len() as int).push(w));
}

/// One emitted entry on top of a prefix adds exactly its contribution.
proof fn lemma_emit_step(oldops: Seq<TraceEntry>, prevops: Seq<TraceEntry>, e: TraceEntry)
    requires
        extends(oldops, prevops),
    ensures
        extends(oldops, prevops.push(e)),
        emitted(oldops, prevops.push(e)) == emitted(oldops, prevops).push(e),
        alloc_ids(emitted(oldops, prevops.push(e))) == alloc_ids(emitted(oldops, prevops)).add(
            entry_alloc_id(e),
        ),
        free_ids(emitted(oldops, prevops.push(e))) == free_ids(emitted(oldops, prevops)).add(
            entry_free_id(e),
        ),
        allocs_in(emitted(oldops, prevops.push(e))) == allocs_in(emitted(oldops, prevops)) + (
        if e.op is Allocate {
            1int
        } else {
            0int
        }),
        forall|lo: int, hi: int|
            ids_bounded(emitted(oldops, prevops), lo, hi) && entry_id_in(e, lo, hi)
                ==> #[trigger] ids_bounded(emitted(oldops, prevops.push(e)), lo, hi),
{
    assert(prevops.push(e).take(oldops.len() as int) =~= prevops.take(oldops.len() as int));
    assert(prevops.push(e).skip(oldops.len() as int) =~= prevops.skip(oldops.len() as int).push(
        e,
    ));
    lemma_ids_push(prevops.skip(oldops.len() as int), e);
    let before = emitted(oldops, prevops);
    let after = before.push(e);
    assert(after.drop_last() =~= before);
    assert forall|lo: int, hi: int|
        ids_bounded(before, lo, hi) && entry_id_in(e, lo, hi) implies #[trigger] ids_bounded(
        after,
        lo,
        hi,
    ) by {
        assert forall|k: int| 0 <= k < after.len() implies entry_id_in(
            #[trigger] after[k],
            lo,
            hi,
        ) by {
            if k < before.len() {
                assert(after[k] == before[k]);
            } else {
                assert(after[k] == e);
            }
        }
    }
}

/// Emitting an operation that neither allocates nor frees leaves the
/// buffer accounting as it was.
proof fn lemma_emit_neutral(oldops: Seq<TraceEntry>, prevops: Seq<TraceEntry>, e: TraceEntry)
    requires
        extends(oldops, prevops),
        !(e.op is Allocate),
        !(e.op is Free),
    ensures
        extends(oldops, prevops.push(e)),
        emitted(oldops, prevops.push(e)) == emitted(oldops, prevops).push(e),
        alloc_ids(emitted(oldops, prevops.push(e))) == alloc_ids(emitted(oldops, prevops)),
        free_ids(emitted(oldops, prevops.push(e))) == free_ids(emitted(oldops, prevops)),
        allocs_in(emitted(oldops, prevops.push(e))) == allocs_in(emitted(oldops, prevops)),
        forall|lo: int, hi: int|
            ids_bounded(emitted(oldops, prevops), lo, hi) ==> #[trigger] ids_bounded(
                emitted(oldops, prevops.push(e)),
                lo,
                hi,
            ),
{
    lemma_emit_step(oldops, prevops, e);
    assert(entry_alloc_id(e) =~= Multiset::<u64>::empty());
    assert(entry_free_id(e) =~= Multiset::<u64>::empty());
    assert(alloc_ids(emitted(oldops, prevops)).add(Multiset::<u64>::empty()) =~= alloc_ids(
        emitted(oldops, prevops),
    ));
    assert(free_ids(emitted(oldops, prevops)).add(Multiset::<u64>::empty()) =~= free_ids(
        emitted(oldops, prevops),
    ));
}

/// Two successive extensions compose, and their emissions concatenate.
proof fn lemma_extends_compose(a: Seq<TraceEntry>, b: Seq<TraceEntry>, c: Seq<TraceEntry>)
    requires
        extends(a, b),
        extends(b, c),
    ensures
        extends(a, c),
        emitted(a, c) == emitted(a, b) + emitted(b, c),
        alloc_ids(emitted(a, c)) == alloc_ids(emitted(a, b)).add(alloc_ids(emitted(b, c))),
        free_ids(emitted(a, c)) == free_ids(emitted(a, b)).add(free_ids(emitted(b, c))),
        allocs_in(emitted(a, c)) == allocs_in(emitted(a, b)) + allocs_in(emitted(b, c)),
        forall|lo: int, hi: int|
            ids_bounded(emitted(a, b), lo, hi) && ids_bounded(emitted(b, c), lo, hi)
                ==> #[trigger] ids_bounded(emitted(a, c), lo, hi),
{
    assert(c.take(a.len() as int) =~= a) by {
        assert(forall|i: int|
            0 <= i < a.len() ==> c.take(a.len() as int)[i] == c.take(b.len() as int)[i]);
    }
    assert(emitted(a, c) =~= emitted(a, b) + emitted(b, c)) by {
        assert(forall|i: int|
            0 <= i < b.len() - a.len() ==> emitted(a, c)[i] == c.take(b.len() as int)[a.len()
                + i]);
    }
    lemma_alloc_ids_concat(emitted(a, b), emitted(b, c));
    lemma_allocs_in_concat(emitted(a, b), emitted(b, c));
    assert forall|lo: int, hi: int|
        ids_bounded(emitted(a, b), lo, hi) && ids_bounded(emitted(b, c), lo, hi)
            implies #[trigger] ids_bounded(emitted(a, c), lo, hi) by {
        assert forall|k: int| 0 <= k < emitted(a, c).len() implies entry_id_in(
            #[trigger] emitted(a, c)[k],
            lo,
            hi,
        ) by {
            if k < emitted(a, b).len() {
                assert(emitted(a, c)[k] == emitted(a, b)[k]);
            } else {
                assert(emitted(a, c)[k] == emitted(b, c)[k - emitted(a, b).len()]);
            }
        }
    }
}

proof fn lemma_allocs_in_concat(a: Seq<TraceEntry>, b: Seq<TraceEntry>)
    ensures
        allocs_in(a + b) == allocs_in(a) + allocs_in(b),
    decreases b.len(),
{
    if b.len() == 0 {
        assert(a + b =~= a);
    } else {
        lemma_allocs_in_concat(a, b.drop_last());
        assert((a + b).drop_last() =~= a + b.drop_last());
        assert((a + b).last() == b.last());
    }
}

/// A carrier for quantified walk results, so witness instances can be
/// handed to the solver as ground terms.
pub open spec fn walk_split(k: int, wk: int, r: Result<(), RenderError>) -> bool {
    true
}

/// The warnings a skipped node leaves behind: none.
pub open spec fn no_warnings(w: Seq<Warning>) -> bool {
    w.len() == 0
}

// ------------------------------------------------------------------
// Per-entry shapes of the emitted operations.
// ------------------------------------------------------------------

pub open spec fn ent_alloc(e: TraceEntry, id: int, w: int, h: int, fmt: BufFormat, st: u32) -> bool {
    &&& e.status == st
    &&& match e.op {
        Op::Allocate { id: i2, width, height, format } => {
            &&& i2 as int == id
            &&& width as int == w
            &&& height as int == h
            &&& format == fmt
        },
        _ => false,
    }
}

pub open spec fn ent_free(e: TraceEntry, id: int, st: u32) -> bool {
    &&& e.status == st
    &&& match e.op {
        Op::Free { id: i2 } => i2 as int == id,
        _ => false,
    }
}

pub open spec fn ent_finish(e: TraceEntry, st: u32) -> bool {
    e.status == st && e.op is Finish
}

pub open spec fn ent_blit(e: TraceEntry, target: u64, src: int, m: TransformModel, st: u32) -> bool {
    &&& e.status == st
    &&& match e.op {
        Op::Blit { target: t2, source, matrix, blend, filter } => {
            &&& t2 == target
            &&& source as int == src
            &&& matrix@ == m
            &&& blend == Blend::NoBlend
            &&& filter == Filter::BiLinear
        },
        _ => false,
    }
}

pub open spec fn ent_write(e: TraceEntry, id: int, content: Seq<u8>, st: u32) -> bool {
    &&& e.status == st
    &&& match e.op {
        Op::WritePixels { id: i2, data } => i2 as int == id && data@ == content,
        _ => false,
    }
}

// ------------------------------------------------------------------
// The path-fill relation.
// ------------------------------------------------------------------

/// Whether `elev` is the quadratic-free degree elevation of `data`.
pub open spec fn elevation_of(data: Seq<Segment>, elev: Seq<Segment>) -> bool {
    &&& elev.len() == data.len()
    &&& quad_free(elev)
    &&& forall|i: int|
        0 <= i < data.len() ==> elevated_seg(
            #[trigger] elev[i],
            data[i],
            spec_pen(data, i).0,
            spec_pen(data, i).1,
        )
}

/// Whether `cmds` is the command stream of the degree elevation of
/// `data`.
pub open spec fn encodes_elevated(data: Seq<Segment>, cmds: Seq<PathCmd>) -> bool {
    exists|elev: Seq<Segment>| #[trigger] elevation_of(data, elev) && cmds == spec_encode(elev)
}

/// The one draw call a solid fill emits.
pub open spec fn solid_draw_rel(
    path: PathNode,
    color_word: int,
    mm: TransformModel,
    cfg: RenderConfig,
    target: u64,
    oracle: Seq<u32>,
    pos: int,
    ops: Seq<TraceEntry>,
    result: Result<(), RenderError>,
) -> bool {
    let st = status_at(oracle, pos);
    &&& ops.len() == 1
    &&& ops[0].status == st
    &&& match ops[0].op {
        Op::Draw { target: t2, path: p2, fill_rule, matrix, blend, quality, color } => {
            &&& t2 == target
            &&& encodes_elevated(path.data@, p2@)
            &&& fill_rule == cfg.fill_rule
            &&& matrix@ == mm
            &&& blend == cfg.blend
            &&& quality == cfg.quality
            &&& color == color_word
        },
        _ => false,
    }
    &&& (st == STATUS_OK ==> result is Ok)
    &&& (st != STATUS_OK ==> result == Result::<(), RenderError>::Err(RenderError::Backend(st)))
}

/// The gradient-descriptor lifecycle a linear-gradient fill emits: the
/// descriptor is initialized (failing fast on its status), its stop
/// table is filled with the exact offsets and packed colors, the ramp
/// is baked, and — when every exact placement intermediate fits — the
/// gradient draw call carries the exact encoded path, the even-odd
/// fill rule and a correct placement.
pub open spec fn gradient_draw_rel(
    g: LinearGradientPaint,
    path: PathNode,
    bbox: Rect,
    mm: TransformModel,
    cfg: RenderConfig,
    target: u64,
    oracle: Seq<u32>,
    pos: int,
    ops: Seq<TraceEntry>,
    result: Result<(), RenderError>,
) -> bool {
    let st0 = status_at(oracle, pos);
    &&& ops.len() >= 1
    &&& ops[0].status == st0
    &&& ops[0].op == Op::InitGradient
    &&& if st0 != STATUS_OK {
        ops.len() == 1 && result == Result::<(), RenderError>::Err(RenderError::Backend(st0))
    } else {
        &&& ops.len() >= 3
        &&& ops[1].status == status_at(oracle, pos + 1)
        &&& match ops[1].op {
            Op::SetGradientStops { offsets, colors } => {
                &&& offsets@.len() == g.stops@.len()
                &&& colors@.len() == g.stops@.len()
                &&& forall|i: int|
                    0 <= i < g.stops@.len() ==> #[trigger] offsets@[i] == g.stops@[i].offset as u32
                &&& forall|i: int|
                    0 <= i < g.stops@.len() ==> #[trigger] colors@[i] == spec_pack_stop(
                        g.stops@[i],
                    )
            },
            _ => false,
        }
        &&& ops[2].status == status_at(oracle, pos + 2)
        &&& ops[2].op == Op::UpdateGradient
        &&& if !placement_in_range(g, bbox) {
            ops.len() == 3 && result == Result::<(), RenderError>::Err(RenderError::OutOfRange)
        } else {
            let st3 = status_at(oracle, pos + 3);
            &&& ops.len() == 4
            &&& ops[3].status == st3
            &&& match ops[3].op {
                Op::DrawGradient { target: t2, path: p2, fill_rule, matrix, placement, blend } => {
                    &&& t2 == target
                    &&& encodes_elevated(path.data@, p2@)
                    &&& fill_rule == FillRule::EvenOdd
                    &&& matrix@ == mm
                    &&& placement_correct(placement, g, mm, bbox)
                    &&& blend == cfg.blend
                },
                _ => false,
            }
            &&& (st3 == STATUS_OK ==> result is Ok)
            &&& (st3 != STATUS_OK ==> result == Result::<(), RenderError>::Err(
                RenderError::Backend(st3),
            ))
        }
    }
}

/// What resolving one path node's fill emits, for every case: skipped
/// nodes emit nothing; a missing bounding box skips with a warning; a
/// solid fill issues exactly one draw call with the exact packed
/// color; a linear gradient with too many stops fails before any
/// backend call; radial gradients and patterns are silent no-ops; a
/// degree elevation that leaves the 64-bit range fails before any
/// backend call.
pub open spec fn fill_path_rel(
    path: PathNode,
    mm: TransformModel,
    cfg: RenderConfig,
    target: u64,
    oracle: Seq<u32>,
    pos: int,
    ops: Seq<TraceEntry>,
    result: Result<(), RenderError>,
    wdelta: Seq<Warning>,
) -> bool {
    if !path.visible || path.data@.len() == 0 || path.fill is None {
        ops.len() == 0 && no_warnings(wdelta) && result is Ok
    } else if path.bbox is None {
        ops.len() == 0 && wdelta == seq![Warning::PathWithoutBoundingBox] && result is Ok
    } else {
        let fill = path.fill->Some_0;
        let bbox = path.bbox->Some_0;
        match fill.paint {
            Paint::Color(c) => {
                &&& no_warnings(wdelta)
                &&& if !quads_in_range(path.data@) {
                    ops.len() == 0 && result == Result::<(), RenderError>::Err(
                        RenderError::OutOfRange,
                    )
                } else {
                    solid_draw_rel(
                        path,
                        spec_pack_solid(c, fill.opacity),
                        mm,
                        cfg,
                        target,
                        oracle,
                        pos,
                        ops,
                        result,
                    )
                }
            },
            Paint::LinearGradient(g) => {
                &&& no_warnings(wdelta)
                &&& if g.stops@.len() > MAX_GRADIENT_STOPS {
                    ops.len() == 0 && result == Result::<(), RenderError>::Err(
                        RenderError::UnsupportedFeature,
                    )
                } else if !quads_in_range(path.data@) {
                    ops.len() == 0 && result == Result::<(), RenderError>::Err(
                        RenderError::OutOfRange,
                    )
                } else {
                    gradient_draw_rel(g, path, bbox, mm, cfg, target, oracle, pos, ops, result)
                }
            },
            Paint::RadialGradient => ops.len() == 0 && no_warnings(wdelta) && result is Ok,
            Paint::Pattern => ops.len() == 0 && no_warnings(wdelta) && result is Ok,
        }
    }
}

/// Resolves and draws one path node's fill; what it emits is fixed by
/// `fill_path_rel`.
pub fn fill_path(path: &PathNode, m: &Transform, cfg: &RenderConfig, target: u64, em: &mut Emitter)
    -> (r: Result<(), RenderError>)
    requires
        path_node_wf(*path),
        m.wf(),
        old(em).wf(),
    ensures
        evolves(*old(em), *final(em)),
        final(em).next_id == old(em).next_id,
        alloc_ids(emitted(old(em).ops@, final(em).ops@)) == Multiset::<u64>::empty(),
        free_ids(emitted(old(em).ops@, final(em).ops@)) == Multiset::<u64>::empty(),
        ids_bounded(
            emitted(old(em).ops@, final(em).ops@),
            old(em).next_id as int,
            final(em).next_id as int,
        ),
        fill_path_rel(
            *path,
            m@,
            *cfg,
            target,
            old(em).oracle@,
            old(em).ops@.len() as int,
            emitted(old(em).ops@, final(em).ops@),
            r,
            emitted(old(em).warnings@, final(em).warnings@),
        ),
{
    proof {
        lemma_extends_refl(old(em).ops@);
        lemma_warn_extends_refl(old(em).warnings@);
        assert(ids_bounded(
            emitted(old(em).ops@, em.ops@),
            old(em).next_id as int,
            em.next_id as int,
        ));
    }
    if !path.visible || path.data.len() == 0 {
        return Ok(());
    }
    let fill = match &path.fill {
        Some(f) => f,
        None => { return Ok(()) },
    };
    let bbox = match &path.bbox {
        Some(b) => *b,
        None => {
            let ghost wprev = em.warnings@;
            em.warn(Warning::PathWithoutBoundingBox);
            proof {
                lemma_warn_push(old(em).warnings@, wprev, Warning::PathWithoutBoundingBox);
                assert(emitted(old(em).warnings@, em.warnings@) =~= seq![
                    Warning::PathWithoutBoundingBox,
                ]);
            }
            return Ok(());
        },
    };
    match &fill.paint {
        Paint::Color(c) => {
            let elevated = match elevate_quads(&path.data) {
                Some(v) => v,
                None => { return Err(RenderError::OutOfRange) },
            };
            let cmds = encode_path(&elevated);
            proof {
                assert(elevation_of(path.data@, elevated@));
                assert(encodes_elevated(path.data@, cmds@));
            }
            let color = pack_solid_color(*c, fill.opacity);
            let ghost start = em.ops@;
            let st = em.emit(
                Op::Draw {
                    target,
                    path: cmds,
                    fill_rule: cfg.fill_rule,
                    matrix: *m,
                    blend: cfg.blend,
                    quality: cfg.quality,
                    color,
                },
            );
            proof {
                lemma_emit_neutral(start, start, em.ops@.last());
            }
            if st != STATUS_OK {
                return Err(RenderError::Backend(st));
            }
            Ok(())
        },
        Paint::LinearGradient(g) => {
            if g.stops.len() > MAX_GRADIENT_STOPS {
                return Err(RenderError::UnsupportedFeature);
            }
            let elevated = match elevate_quads(&path.data) {
                Some(v) => v,
                None => { return Err(RenderError::OutOfRange) },
            };
            let cmds = encode_path(&elevated);
            proof {
                assert(elevation_of(path.data@, elevated@));
                assert(encodes_elevated(path.data@, cmds@));
            }
            let ghost start = em.ops@;
            let st = em.emit(Op::InitGradient);
            proof {
                lemma_emit_neutral(start, start, em.ops@.last());
            }
            if st != STATUS_OK {
                return Err(RenderError::Backend(st));
            }
            let (offsets, colors) = build_stop_tables(&g.stops);
            let ghost p1 = em.ops@;
            // the driver does not act on this call's status
            let _ = em.emit(Op::SetGradientStops { offsets, colors });
            proof {
                lemma_emit_neutral(start, p1, em.ops@.last());
            }
            let ghost p2 = em.ops@;
            let _ = em.emit(Op::UpdateGradient);
            proof {
                lemma_emit_neutral(start, p2, em.ops@.last());
            }
            let placement = match build_gradient_placement(g, m, &bbox) {
                Some(p) => p,
                None => { return Err(RenderError::OutOfRange) },
            };
            let ghost p3 = em.ops@;
            let st = em.emit(
                Op::DrawGradient {
                    target,
                    path: cmds,
                    fill_rule: FillRule::EvenOdd,
                    matrix: *m,
                    placement,
                    blend: cfg.blend,
                },
            );
            proof {
                lemma_emit_neutral(start, p3, em.ops@.last());
            }
            if st != STATUS_OK {
                return Err(RenderError::Backend(st));
            }
            Ok(())
        },
        Paint::RadialGradient => Ok(()),
        Paint::Pattern => Ok(()),
    }
}

// ------------------------------------------------------------------
// The transient-buffer tail: flush, blit, free.
// ------------------------------------------------------------------

/// What closing a transient buffer emits: a flush of the work rendered
/// into it (so the blit reads completed pixels), the blit into the
/// target under the placement matrix, and the free — the free on every
/// path, the first failing status as the result, the free's own status
/// reported last.
pub open spec fn tail_rel(
    target: u64,
    id: int,
    m3: TransformModel,
    oracle: Seq<u32>,
    pos: int,
    ops: Seq<TraceEntry>,
    result: Result<(), RenderError>,
) -> bool {
    let st0 = status_at(oracle, pos);
    &&& ops.len() >= 2
    &&& ent_finish(ops[0], st0)
    &&& if st0 != STATUS_OK {
        &&& ops.len() == 2
        &&& ent_free(ops[1], id, status_at(oracle, pos + 1))
        &&& result == Result::<(), RenderError>::Err(RenderError::Backend(st0))
    } else {
        let st1 = status_at(oracle, pos + 1);
        let st2 = status_at(oracle, pos + 2);
        &&& ops.len() == 3
        &&& ent_blit(ops[1], target, id, m3, st1)
        &&& ent_free(ops[2], id, st2)
        &&& if st1 != STATUS_OK {
            result == Result::<(), RenderError>::Err(RenderError::Backend(st1))
        } else {
            &&& (st2 == STATUS_OK ==> result is Ok)
            &&& (st2 != STATUS_OK ==> result == Result::<(), RenderError>::Err(
                RenderError::Backend(st2),
            ))
        }
    }
}

/// Flushes the work rendered into a transient buffer, blits it into
/// the target, and frees it, per `tail_rel`: the flush precedes the
/// blit so the blit reads completed pixels, and the buffer is freed
/// exactly once on every path.
fn finish_blit_free(target: u64, id: u64, matrix: &Transform, em: &mut Emitter) -> (r: Result<
    (),
    RenderError,
>)
    requires
        old(em).wf(),
    ensures
        evolves(*old(em), *final(em)),
        final(em).next_id == old(em).next_id,
        final(em).warnings == old(em).warnings,
        alloc_ids(emitted(old(em).ops@, final(em).ops@)) == Multiset::<u64>::empty(),
        free_ids(emitted(old(em).ops@, final(em).ops@)) == Multiset::<u64>::empty().insert(id),
        forall|lo: int, hi: int|
            lo <= id < hi ==> #[trigger] ids_bounded(
                emitted(old(em).ops@, final(em).ops@),
                lo,
                hi,
            ),
        tail_rel(
            target,
            id as int,
            matrix@,
            old(em).oracle@,
            old(em).ops@.len() as int,
            emitted(old(em).ops@, final(em).ops@),
            r,
        ),
{
    let ghost start = em.ops@;
    proof {
        lemma_extends_refl(start);
        lemma_warn_extends_refl(old(em).warnings@);
    }
    let st = em.emit(Op::Finish);
    proof {
        lemma_emit_neutral(start, start, em.ops@.last());
    }
    if st != STATUS_OK {
        let ghost p1 = em.ops@;
        let _ = em.emit(Op::Free { id });
        proof {
            lemma_emit_step(start, p1, em.ops@.last());
        }
        return Err(RenderError::Backend(st));
    }
    let ghost p1 = em.ops@;
    let st = em.emit(
        Op::Blit {
            target,
            source: id,
            matrix: *matrix,
            blend: Blend::NoBlend,
            filter: Filter::BiLinear,
        },
    );
    proof {
        lemma_emit_neutral(start, p1, em.ops@.last());
    }
    let ghost p2 = em.ops@;
    let stf = em.emit(Op::Free { id });
    proof {
        lemma_emit_step(start, p2, em.ops@.last());
    }
    if st != STATUS_OK {
        return Err(RenderError::Backend(st));
    }
    if stf != STATUS_OK {
        return Err(RenderError::Backend(stf));
    }
    Ok(())
}

// ------------------------------------------------------------------
// Raster images: decode, normalize, write, scale, blit.
// ------------------------------------------------------------------

/// The placement of a decoded image: the accumulated transform scaled
/// by `(declared / decoded)` in each axis.
pub open spec fn scaled_placement_model(m2: TransformModel, vb: Rect, w: int, h: int)
    -> TransformModel {
    compose_model(
        m2,
        TransformModel {
            a: (vb.width.num * 1) * (vb.height.den * h),
            b: 0,
            c: 0,
            d: (vb.height.num * 1) * (vb.width.den * w),
            e: 0,
            f: 0,
            den: (vb.width.den * w) * (vb.height.den * h),
        },
    )
}

/// Whether every exact intermediate of the scaled placement fits in
/// the 64-bit range (and the decoded sizes divide, that is, are at
/// least one).
pub open spec fn scaled_in_range(vb: Rect, w: int, h: int, m2: TransformModel) -> bool {
    &&& w >= 1
    &&& h >= 1
    &&& in_i64(vb.width.num * 1)
    &&& in_i64(vb.width.den * w)
    &&& in_i64(vb.height.num * 1)
    &&& in_i64(vb.height.den * h)
    &&& in_i64((vb.width.den * w) * (vb.height.den * h))
    &&& in_i64((vb.width.num * 1) * (vb.height.den * h))
    &&& in_i64((vb.height.num * 1) * (vb.width.den * w))
    &&& model_in_range(scaled_placement_model(m2, vb, w, h))
}

/// The accumulated placement scaled by `(declared / decoded)` in each
/// axis, exactly; `None` exactly when an exact intermediate leaves the
/// 64-bit range or a decoded size is zero.
fn scaled_placement(m2: &Transform, view_box: &Rect, decoded_w: i64, decoded_h: i64) -> (r: Option<
    Transform,
>)
    requires
        m2.wf(),
        view_box.wf(),
        decoded_w >= 0,
        decoded_h >= 0,
    ensures
        r is Some <==> scaled_in_range(*view_box, decoded_w as int, decoded_h as int, m2@),
        match r {
            Some(t) => t.wf() && t@ == scaled_placement_model(
                m2@,
                *view_box,
                decoded_w as int,
                decoded_h as int,
            ),
            None => true,
        },
{
    let sx = match view_box.width.checked_div(Scalar::new(decoded_w.max(0), 1)) {
        Some(v) => v,
        None => { return None },
    };
    let sy = match view_box.height.checked_div(Scalar::new(decoded_h.max(0), 1)) {
        Some(v) => v,
        None => { return None },
    };
    let sc = match Transform::scaling(sx, sy) {
        Some(v) => v,
        None => { return None },
    };
    m2.compose(&sc)
}

/// What writing the normalized bytes into the transient buffer and
/// closing it emits: the pixel write, then — when the scaled placement
/// fits — the flush/blit/free tail under that placement; a placement
/// out of the 64-bit range frees the buffer and fails.
pub open spec fn wb_rel(
    vb: Rect,
    m2: TransformModel,
    target: u64,
    id: int,
    w: int,
    h: int,
    buf: Seq<u8>,
    oracle: Seq<u32>,
    pos: int,
    ops: Seq<TraceEntry>,
    result: Result<(), RenderError>,
) -> bool {
    &&& ops.len() >= 1
    &&& ent_write(ops[0], id, buf, status_at(oracle, pos))
    &&& if !scaled_in_range(vb, w, h, m2) {
        &&& ops.len() == 2
        &&& ent_free(ops[1], id, status_at(oracle, pos + 1))
        &&& result == Result::<(), RenderError>::Err(RenderError::OutOfRange)
    } else {
        tail_rel(target, id, scaled_placement_model(m2, vb, w, h), oracle, pos + 1, ops.skip(1), result)
    }
}

/// Writes the normalized bytes into the transient buffer and closes it
/// per `wb_rel`. It also closes the one pending allocation: on entry
/// exactly the transient buffer `id` is allocated since `orig` and not
/// yet freed; on exit everything emitted since `orig` is balanced.
fn write_scale_blit(
    view_box: &Rect,
    m2: &Transform,
    target: u64,
    em: &mut Emitter,
    Ghost(orig): Ghost<Emitter>,
    id: u64,
    decoded_w: i64,
    decoded_h: i64,
    buf: Vec<u8>,
) -> (r: Result<(), RenderError>)
    requires
        view_box.wf(),
        m2.wf(),
        old(em).wf(),
        decoded_w >= 0,
        decoded_h >= 0,
        extends(orig.ops@, old(em).ops@),
        alloc_ids(emitted(orig.ops@, old(em).ops@)) == free_ids(
            emitted(orig.ops@, old(em).ops@),
        ).insert(id),
    ensures
        evolves(*old(em), *final(em)),
        final(em).next_id == old(em).next_id,
        final(em).warnings == old(em).warnings,
        extends(orig.ops@, final(em).ops@),
        alloc_ids(emitted(orig.ops@, final(em).ops@)) == free_ids(
            emitted(orig.ops@, final(em).ops@),
        ),
        forall|lo: int, hi: int|
            lo <= id < hi ==> #[trigger] ids_bounded(
                emitted(old(em).ops@, final(em).ops@),
                lo,
                hi,
            ),
        wb_rel(
            *view_box,
            m2@,
            target,
            id as int,
            decoded_w as int,
            decoded_h as int,
            buf@,
            old(em).oracle@,
            old(em).ops@.len() as int,
            emitted(old(em).ops@, final(em).ops@),
            r,
        ),
{
    proof {
        lemma_extends_refl(old(em).ops@);
        lemma_warn_extends_refl(old(em).warnings@);
    }
    let ghost p = em.ops@;
    let _ = em.emit(Op::WritePixels { id, data: buf });
    proof {
        lemma_emit_neutral(orig.ops@, p, em.ops@.last());
        lemma_emit_neutral(old(em).ops@, p, em.ops@.last());
    }
    let m3 = match scaled_placement(m2, view_box, decoded_w, decoded_h) {
        Some(t) => t,
        None => {
            let ghost p2 = em.ops@;
            let _ = em.emit(Op::Free { id });
            proof {
                lemma_emit_step(orig.ops@, p2, em.ops@.last());
                lemma_emit_step(old(em).ops@, p2, em.ops@.last());
                assert(alloc_ids(emitted(orig.ops@, em.ops@)) =~= free_ids(
                    emitted(orig.ops@, em.ops@),
                ));
            }
            return Err(RenderError::OutOfRange);
        },
    };
    let ghost pre_tail = *em;
    let r = finish_blit_free(target, id, &m3, em);
    proof {
        lemma_extends_compose(orig.ops@, pre_tail.ops@, em.ops@);
        lemma_extends_compose(old(em).ops@, pre_tail.ops@, em.ops@);
        assert(alloc_ids(emitted(orig.ops@, em.ops@)) =~= free_ids(emitted(orig.ops@, em.ops@)));
        assert(emitted(old(em).ops@, em.ops@).skip(1) =~= emitted(pre_tail.ops@, em.ops@));
    }
    r
}

/// Whether normalizing decoded JPEG pixels fails: an 8-bit grayscale
/// or RGB decode whose byte count does not match the buffer.
pub open spec fn jpeg_norm_fails(fmt: JpegFormat, pix: Seq<u8>, sz: int) -> bool {
    match fmt {
        JpegFormat::L8 => pix.len() != sz,
        JpegFormat::Rgb24 => pix.len() * 4 != sz * 3,
        _ => false,
    }
}

/// The buffer contents a decoded JPEG normalizes to: grayscale copied
/// through, RGB expanded to RGBA with opaque alpha, and the
/// recognized-unsupported 16-bit grayscale and CMYK subformats
/// zero-filled — so nothing of them is ever drawn.
pub open spec fn jpeg_content(fmt: JpegFormat, pix: Seq<u8>, sz: int, buf: Seq<u8>) -> bool {
    &&& buf.len() == sz
    &&& match fmt {
        JpegFormat::L8 => buf == pix,
        JpegFormat::L16 => forall|i: int| 0 <= i < buf.len() ==> buf[i] == 0,
        JpegFormat::Cmyk32 => forall|i: int| 0 <= i < buf.len() ==> buf[i] == 0,
        JpegFormat::Rgb24 => rgb_expanded(pix, buf),
    }
}

/// What visiting an embedded JPEG emits: reject undecodable data
/// before any backend call; allocate a transient buffer with the
/// decoded dimensions and per-format buffer format; on a failed
/// allocation stop with its status and no free; otherwise free the
/// buffer on every later exit, writing the normalized pixels and
/// closing with the flush/blit/free tail under the declared-over-
/// decoded scaling when everything fits.
pub open spec fn jpeg_rel(
    data: Seq<u8>,
    vb: Rect,
    m2: TransformModel,
    target: u64,
    oracle: Seq<u32>,
    pos: int,
    next_id: int,
    ops: Seq<TraceEntry>,
    result: Result<(), RenderError>,
) -> bool {
    match jpeg_info_of(data) {
        None => ops.len() == 0 && result == Result::<(), RenderError>::Err(
            RenderError::UnsupportedFeature,
        ),
        Some(info) => {
            if next_id == u64::MAX as int {
                ops.len() == 0 && result == Result::<(), RenderError>::Err(
                    RenderError::OutOfRange,
                )
            } else {
                let w = info.width as int;
                let h = info.height as int;
                let fmt = spec_jpeg_buffer_format(info.format);
                let sz = w * fmt.spec_bytes_per_pixel() * h;
                let st0 = status_at(oracle, pos);
                &&& ops.len() >= 1
                &&& ent_alloc(ops[0], next_id, w, h, fmt, st0)
                &&& if st0 != STATUS_OK {
                    ops.len() == 1 && result == Result::<(), RenderError>::Err(
                        RenderError::Backend(st0),
                    )
                } else if sz > usize::MAX as int {
                    &&& ops.len() == 2
                    &&& ent_free(ops[1], next_id, status_at(oracle, pos + 1))
                    &&& result == Result::<(), RenderError>::Err(RenderError::OutOfRange)
                } else {
                    match jpeg_pixels_of(data) {
                        None => {
                            &&& ops.len() == 2
                            &&& ent_free(ops[1], next_id, status_at(oracle, pos + 1))
                            &&& result == Result::<(), RenderError>::Err(
                                RenderError::UnsupportedFeature,
                            )
                        },
                        Some(pix) => {
                            if jpeg_norm_fails(info.format, pix, sz) {
                                &&& ops.len() == 2
                                &&& ent_free(ops[1], next_id, status_at(oracle, pos + 1))
                                &&& result == Result::<(), RenderError>::Err(
                                    RenderError::MalformedInput,
                                )
                            } else {
                                exists|buf: Seq<u8>|
                                    #[trigger] jpeg_content(info.format, pix, sz, buf) && wb_rel(
                                        vb,
                                        m2,
                                        target,
                                        next_id,
                                        w,
                                        h,
                                        buf,
                                        oracle,
                                        pos + 1,
                                        ops.skip(1),
                                        result,
                                    )
                            }
                        },
                    }
                }
            }
        },
    }
}

/// Decodes an embedded JPEG into a freshly allocated transient buffer
/// and blits it into the target; what it emits is fixed by `jpeg_rel`.
fn raster_jpeg(
    data: &Vec<u8>,
    view_box: &Rect,
    m2: &Transform,
    target: u64,
    em: &mut Emitter,
) -> (r: Result<(), RenderError>)
    requires
        view_box.wf(),
        m2.wf(),
        old(em).wf(),
    ensures
        evolves(*old(em), *final(em)),
        emits_balanced(*old(em), *final(em)),
        final(em).warnings == old(em).warnings,
        ids_bounded(
            emitted(old(em).ops@, final(em).ops@),
            old(em).next_id as int,
            final(em).next_id as int,
        ),
        jpeg_rel(
            data@,
            *view_box,
            m2@,
            target,
            old(em).oracle@,
            old(em).ops@.len() as int,
            old(em).next_id as int,
            emitted(old(em).ops@, final(em).ops@),
            r,
        ),
{
    proof {
        lemma_extends_refl(old(em).ops@);
        lemma_warn_extends_refl(old(em).warnings@);
        assert(ids_bounded(
            emitted(old(em).ops@, em.ops@),
            old(em).next_id as int,
            em.next_id as int,
        ));
    }
    let info = match jpeg_read_info(data) {
        Some(i) => i,
        None => { return Err(RenderError::UnsupportedFeature) },
    };
    if em.next_id == u64::MAX {
        return Err(RenderError::OutOfRange);
    }
    let bf = jpeg_buffer_format(info.format);
    let bpp: u64 = bf.bytes_per_pixel() as u64;
    proof {
        assert((info.width as int) * (bpp as int) >= 0 && (info.width as int) * (bpp as int)
            < 0x8_0000int && (info.width as int) * (bpp as int) * (info.height as int) >= 0 && (
        info.width as int) * (bpp as int) * (info.height as int) < 0x8_0000_0000int)
            by (nonlinear_arith)
            requires
                (info.width as int) >= 0,
                (info.width as int) < 0x1_0000,
                (info.height as int) >= 0,
                (info.height as int) < 0x1_0000,
                (bpp as int) >= 0,
                (bpp as int) <= 4,
        ;
    }
    let sz64: u64 = (info.width as u64) * bpp * (info.height as u64);
    let ghost start = *em;
    let (id, st) = em.emit_alloc(info.width as i64, info.height as i64, bf);
    proof {
        lemma_emit_step(start.ops@, start.ops@, em.ops@.last());
    }
    if st != STATUS_OK {
        proof {
            assert(entry_alloc_id(em.ops@.last()) =~= Multiset::<u64>::empty());
            assert(alloc_ids(emitted(old(em).ops@, em.ops@)) =~= free_ids(
                emitted(old(em).ops@, em.ops@),
            ));
        }
        return Err(RenderError::Backend(st));
    }
    if sz64 > usize::MAX as u64 {
        let ghost p = em.ops@;
        let _ = em.emit(Op::Free { id });
        proof {
            lemma_emit_step(start.ops@, p, em.ops@.last());
            assert(alloc_ids(emitted(old(em).ops@, em.ops@)) =~= free_ids(
                emitted(old(em).ops@, em.ops@),
            ));
        }
        return Err(RenderError::OutOfRange);
    }
    let buf_size: usize = sz64 as usize;
    let pixels = match jpeg_decode_pixels(data) {
        Some(p) => p,
        None => {
            let ghost p = em.ops@;
            let _ = em.emit(Op::Free { id });
            proof {
                lemma_emit_step(start.ops@, p, em.ops@.last());
                assert(alloc_ids(emitted(old(em).ops@, em.ops@)) =~= free_ids(
                    emitted(old(em).ops@, em.ops@),
                ));
            }
            return Err(RenderError::UnsupportedFeature);
        },
    };
    let buf = match normalize_jpeg(info.format, &pixels, buf_size) {
        Ok(b) => b,
        Err(e) => {
            let ghost p = em.ops@;
            let _ = em.emit(Op::Free { id });
            proof {
                lemma_emit_step(start.ops@, p, em.ops@.last());
                assert(alloc_ids(emitted(old(em).ops@, em.ops@)) =~= free_ids(
                    emitted(old(em).ops@, em.ops@),
                ));
            }
            return Err(e);
        },
    };
    proof {
        assert(jpeg_content(info.format, pixels@, buf_size as int, buf@));
        assert(alloc_ids(emitted(old(em).ops@, em.ops@)) =~= free_ids(
            emitted(old(em).ops@, em.ops@),
        ).insert(id));
    }
    let ghost pre_wb = *em;
    let ghost buf_view = buf@;
    let r = write_scale_blit(
        view_box,
        m2,
        target,
        em,
        Ghost(*old(em)),
        id,
        info.width as i64,
        info.height as i64,
        buf,
    );
    proof {
        lemma_extends_compose(old(em).ops@, pre_wb.ops@, em.ops@);
        assert(emitted(old(em).ops@, em.ops@).skip(1) =~= emitted(pre_wb.ops@, em.ops@));
        assert(jpeg_content(info.format, jpeg_pixels_of(data@)->Some_0, sz64 as int, buf_view)
            && wb_rel(
            *view_box,
            m2@,
            target,
            id as int,
            info.width as int,
            info.height as int,
            buf_view,
            old(em).oracle@,
            old(em).ops@.len() as int + 1,
            emitted(old(em).ops@, em.ops@).skip(1),
            r,
        ));
    }
    r
}

/// The zero-padded buffer contents of a decoded frame that may be
/// smaller than the buffer.
pub open spec fn padded_content(pix: Seq<u8>, sz: int, buf: Seq<u8>) -> bool {
    &&& buf.len() == sz
    &&& pix.len() <= sz
    &&& forall|i: int| 0 <= i < pix.len() ==> buf[i] == pix[i]
    &&& forall|i: int| pix.len() <= i < sz ==> buf[i] == 0
}

/// The RGBA expansion of decoded RGB bytes filling the buffer exactly.
pub open spec fn expanded_content(pix: Seq<u8>, sz: int, buf: Seq<u8>) -> bool {
    &&& buf.len() == sz
    &&& pix.len() * 4 == sz * 3
    &&& rgb_expanded(pix, buf)
}

/// What visiting an embedded PNG emits: undecodable data, sixteen-bit
/// depth, indexed color and grayscale-plus-alpha are rejected before
/// any backend call; 8-bit grayscale and RGBA decode into a buffer of
/// the header's dimensions, RGB decodes and expands into RGBA with the
/// frame's dimensions; after a successful allocation the buffer is
/// freed on every exit, closing with the flush/blit/free tail under
/// the declared-over-decoded scaling when everything fits.
pub open spec fn png_rel(
    data: Seq<u8>,
    vb: Rect,
    m2: TransformModel,
    target: u64,
    oracle: Seq<u32>,
    pos: int,
    next_id: int,
    ops: Seq<TraceEntry>,
    result: Result<(), RenderError>,
) -> bool {
    match png_info_of(data) {
        None => ops.len() == 0 && result == Result::<(), RenderError>::Err(
            RenderError::UnsupportedFeature,
        ),
        Some(info) => {
            if info.bit16 || info.color is Indexed || info.color is GrayscaleAlpha {
                ops.len() == 0 && result == Result::<(), RenderError>::Err(
                    RenderError::UnsupportedFeature,
                )
            } else {
                match info.color {
                    PngColor::Grayscale => png_direct_rel(
                        data,
                        info,
                        info.width as int * info.height as int,
                        BufFormat::L8,
                        vb,
                        m2,
                        target,
                        oracle,
                        pos,
                        next_id,
                        ops,
                        result,
                    ),
                    PngColor::Rgba => {
                        let sz = (info.width as int * info.height as int) * 4;
                        if sz > u64::MAX as int {
                            ops.len() == 0 && result == Result::<(), RenderError>::Err(
                                RenderError::OutOfRange,
                            )
                        } else {
                            png_direct_rel(
                                data,
                                info,
                                sz,
                                BufFormat::Rgba8888,
                                vb,
                                m2,
                                target,
                                oracle,
                                pos,
                                next_id,
                                ops,
                                result,
                            )
                        }
                    },
                    PngColor::Rgb => match png_pixels_of(data) {
                        None => ops.len() == 0 && result == Result::<(), RenderError>::Err(
                            RenderError::UnsupportedFeature,
                        ),
                        Some(p) => {
                            let ow = p.0 as int;
                            let oh = p.1 as int;
                            let sz = (ow * 4) * oh;
                            if ow * 4 > u64::MAX as int || sz > u64::MAX as int || sz
                                > usize::MAX as int {
                                ops.len() == 0 && result == Result::<(), RenderError>::Err(
                                    RenderError::OutOfRange,
                                )
                            } else if p.2.len() * 4 != sz * 3 {
                                ops.len() == 0 && result == Result::<(), RenderError>::Err(
                                    RenderError::MalformedInput,
                                )
                            } else if next_id == u64::MAX as int {
                                ops.len() == 0 && result == Result::<(), RenderError>::Err(
                                    RenderError::OutOfRange,
                                )
                            } else {
                                let st0 = status_at(oracle, pos);
                                &&& ops.len() >= 1
                                &&& ent_alloc(ops[0], next_id, ow, oh, BufFormat::Rgba8888, st0)
                                &&& if st0 != STATUS_OK {
                                    ops.len() == 1 && result == Result::<(), RenderError>::Err(
                                        RenderError::Backend(st0),
                                    )
                                } else {
                                    exists|buf: Seq<u8>|
                                        #[trigger] expanded_content(p.2, sz, buf) && wb_rel(
                                            vb,
                                            m2,
                                            target,
                                            next_id,
                                            info.width as int,
                                            info.height as int,
                                            buf,
                                            oracle,
                                            pos + 1,
                                            ops.skip(1),
                                            result,
                                        )
                                }
                            }
                        },
                    },
                    _ => false,
                }
            }
        },
    }
}

/// The shared shape of the grayscale and RGBA branches: the decoded
/// frame is written into a buffer of the header's dimensions, zero
/// padded, after the size guards.
pub open spec fn png_direct_rel(
    data: Seq<u8>,
    info: PngInfo,
    sz: int,
    fmt: BufFormat,
    vb: Rect,
    m2: TransformModel,
    target: u64,
    oracle: Seq<u32>,
    pos: int,
    next_id: int,
    ops: Seq<TraceEntry>,
    result: Result<(), RenderError>,
) -> bool {
    if sz > usize::MAX as int || info.buf_size as int > sz {
        ops.len() == 0 && result == Result::<(), RenderError>::Err(
            RenderError::UnsupportedFeature,
        )
    } else if next_id == u64::MAX as int {
        ops.len() == 0 && result == Result::<(), RenderError>::Err(RenderError::OutOfRange)
    } else {
        let st0 = status_at(oracle, pos);
        &&& ops.len() >= 1
        &&& ent_alloc(ops[0], next_id, info.width as int, info.height as int, fmt, st0)
        &&& if st0 != STATUS_OK {
            ops.len() == 1 && result == Result::<(), RenderError>::Err(RenderError::Backend(st0))
        } else {
            match png_pixels_of(data) {
                None => {
                    &&& ops.len() == 2
                    &&& ent_free(ops[1], next_id, status_at(oracle, pos + 1))
                    &&& result == Result::<(), RenderError>::Err(
                        RenderError::UnsupportedFeature,
                    )
                },
                Some(p) => {
                    if p.2.len() > sz {
                        &&& ops.len() == 2
                        &&& ent_free(ops[1], next_id, status_at(oracle, pos + 1))
                        &&& result == Result::<(), RenderError>::Err(RenderError::MalformedInput)
                    } else {
                        exists|buf: Seq<u8>|
                            #[trigger] padded_content(p.2, sz, buf) && wb_rel(
                                vb,
                                m2,
                                target,
                                next_id,
                                info.width as int,
                                info.height as int,
                                buf,
                                oracle,
                                pos + 1,
                                ops.skip(1),
                                result,
                            )
                    }
                },
            }
        }
    }
}

/// Decodes an embedded PNG into a freshly allocated transient buffer
/// and blits it into the target; what it emits is fixed by `png_rel`.
fn raster_png(
    data: &Vec<u8>,
    view_box: &Rect,
    m2: &Transform,
    target: u64,
    em: &mut Emitter,
) -> (r: Result<(), RenderError>)
    requires
        view_box.wf(),
        m2.wf(),
        old(em).wf(),
    ensures
        evolves(*old(em), *final(em)),
        emits_balanced(*old(em), *final(em)),
        final(em).warnings == old(em).warnings,
        ids_bounded(
            emitted(old(em).ops@, final(em).ops@),
            old(em).next_id as int,
            final(em).next_id as int,
        ),
        png_rel(
            data@,
            *view_box,
            m2@,
            target,
            old(em).oracle@,
            old(em).ops@.len() as int,
            old(em).next_id as int,
            emitted(old(em).ops@, final(em).ops@),
            r,
        ),
{
    proof {
        lemma_extends_refl(old(em).ops@);
        lemma_warn_extends_refl(old(em).warnings@);
        assert(ids_bounded(
            emitted(old(em).ops@, em.ops@),
            old(em).next_id as int,
            em.next_id as int,
        ));
    }
    let info = match png_read_info(data) {
        Some(i) => i,
        None => { return Err(RenderError::UnsupportedFeature) },
    };
    if info.bit16 {
        return Err(RenderError::UnsupportedFeature);
    }
    match info.color {
        PngColor::Indexed => Err(RenderError::UnsupportedFeature),
        PngColor::GrayscaleAlpha => Err(RenderError::UnsupportedFeature),
        PngColor::Grayscale => {
            let px64: u64 = (info.width as u64).wrapping_mul(info.height as u64);
            proof {
                assert((info.width as int) * (info.height as int) >= 0 && (info.width as int) * (
                info.height as int) <= 0xffff_ffff_ffff_ffffint) by (nonlinear_arith)
                    requires
                        (info.width as int) >= 0,
                        (info.width as int) <= 0xffff_ffff,
                        (info.height as int) >= 0,
                        (info.height as int) <= 0xffff_ffff,
                ;
            }
            png_direct(data, info, px64, BufFormat::L8, view_box, m2, target, em)
        },
        PngColor::Rgba => {
            let px64: u64 = (info.width as u64).wrapping_mul(info.height as u64);
            proof {
                assert((info.width as int) * (info.height as int) >= 0 && (info.width as int) * (
                info.height as int) <= 0xffff_ffff_ffff_ffffint) by (nonlinear_arith)
                    requires
                        (info.width as int) >= 0,
                        (info.width as int) <= 0xffff_ffff,
                        (info.height as int) >= 0,
                        (info.height as int) <= 0xffff_ffff,
                ;
            }
            let sz64: u64 = match px64.checked_mul(4) {
                Some(v) => v,
                None => { return Err(RenderError::OutOfRange) },
            };
            png_direct(data, info, sz64, BufFormat::Rgba8888, view_box, m2, target, em)
        },
        PngColor::Rgb => {
            let pixels = match png_decode_pixels(data) {
                Some(p) => p,
                None => { return Err(RenderError::UnsupportedFeature) },
            };
            let (ow, oh) = (pixels.0, pixels.1);
            let row64: u64 = match (ow as u64).checked_mul(4) {
                Some(v) => v,
                None => { return Err(RenderError::OutOfRange) },
            };
            let sz64: u64 = match row64.checked_mul(oh as u64) {
                Some(v) => v,
                None => { return Err(RenderError::OutOfRange) },
            };
            if sz64 > usize::MAX as u64 {
                return Err(RenderError::OutOfRange);
            }
            let buf_size: usize = sz64 as usize;
            let buf = match expand_rgb24(&pixels.2, buf_size) {
                Ok(b) => b,
                Err(e) => { return Err(e) },
            };
            if em.next_id == u64::MAX {
                return Err(RenderError::OutOfRange);
            }
            let ghost start = *em;
            let (id, st) = em.emit_alloc(ow as i64, oh as i64, BufFormat::Rgba8888);
            proof {
                lemma_emit_step(start.ops@, start.ops@, em.ops@.last());
            }
            if st != STATUS_OK {
                proof {
                    assert(entry_alloc_id(em.ops@.last()) =~= Multiset::<u64>::empty());
                    assert(alloc_ids(emitted(old(em).ops@, em.ops@)) =~= free_ids(
                        emitted(old(em).ops@, em.ops@),
                    ));
                }
                return Err(RenderError::Backend(st));
            }
            proof {
                assert(expanded_content(pixels.2@, sz64 as int, buf@));
                assert(alloc_ids(emitted(old(em).ops@, em.ops@)) =~= free_ids(
                    emitted(old(em).ops@, em.ops@),
                ).insert(id));
            }
            let ghost pre_wb = *em;
            let ghost buf_view = buf@;
            let r = write_scale_blit(
                view_box,
                m2,
                target,
                em,
                Ghost(*old(em)),
                id,
                info.width as i64,
                info.height as i64,
                buf,
            );
            proof {
                lemma_extends_compose(old(em).ops@, pre_wb.ops@, em.ops@);
                assert(emitted(old(em).ops@, em.ops@).skip(1) =~= emitted(pre_wb.ops@, em.ops@));
                assert(expanded_content(png_pixels_of(data@)->Some_0.2, sz64 as int, buf_view)
                    && wb_rel(
                    *view_box,
                    m2@,
                    target,
                    id as int,
                    info.width as int,
                    info.height as int,
                    buf_view,
                    old(em).oracle@,
                    old(em).ops@.len() as int + 1,
                    emitted(old(em).ops@, em.ops@).skip(1),
                    r,
                ));
            }
            r
        },
    }
}

/// The shared grayscale/RGBA pipeline: size guards, allocation, decode
/// into a zero-padded buffer of the header's dimensions, and the
/// write/scale/blit close, per `png_direct_rel`.
fn png_direct(
    data: &Vec<u8>,
    info: PngInfo,
    sz64: u64,
    fmt: BufFormat,
    view_box: &Rect,
    m2: &Transform,
    target: u64,
    em: &mut Emitter,
) -> (r: Result<(), RenderError>)
    requires
        view_box.wf(),
        m2.wf(),
        old(em).wf(),
        fmt == BufFormat::L8 ==> sz64 as int == info.width as int * info.height as int,
        fmt == BufFormat::Rgba8888 ==> sz64 as int == (info.width as int * info.height as int)
            * 4,
        fmt == BufFormat::L8 || fmt == BufFormat::Rgba8888,
    ensures
        evolves(*old(em), *final(em)),
        emits_balanced(*old(em), *final(em)),
        final(em).warnings == old(em).warnings,
        ids_bounded(
            emitted(old(em).ops@, final(em).ops@),
            old(em).next_id as int,
            final(em).next_id as int,
        ),
        png_direct_rel(
            data@,
            info,
            sz64 as int,
            fmt,
            *view_box,
            m2@,
            target,
            old(em).oracle@,
            old(em).ops@.len() as int,
            old(em).next_id as int,
            emitted(old(em).ops@, final(em).ops@),
            r,
        ),
{
    proof {
        lemma_extends_refl(old(em).ops@);
        lemma_warn_extends_refl(old(em).warnings@);
        assert(ids_bounded(
            emitted(old(em).ops@, em.ops@),
            old(em).next_id as int,
            em.next_id as int,
        ));
    }
    if sz64 > usize::MAX as u64 || info.buf_size as u64 > sz64 {
        return Err(RenderError::UnsupportedFeature);
    }
    let buf_size: usize = sz64 as usize;
    if em.next_id == u64::MAX {
        return Err(RenderError::OutOfRange);
    }
    let ghost start = *em;
    let (id, st) = em.emit_alloc(info.width as i64, info.height as i64, fmt);
    proof {
        lemma_emit_step(start.ops@, start.ops@, em.ops@.last());
    }
    if st != STATUS_OK {
        proof {
            assert(entry_alloc_id(em.ops@.last()) =~= Multiset::<u64>::empty());
            assert(alloc_ids(emitted(old(em).ops@, em.ops@)) =~= free_ids(
                emitted(old(em).ops@, em.ops@),
            ));
        }
        return Err(RenderError::Backend(st));
    }
    let pixels = match png_decode_pixels(data) {
        Some(p) => p,
        None => {
            let ghost p = em.ops@;
            let _ = em.emit(Op::Free { id });
            proof {
                lemma_emit_step(start.ops@, p, em.ops@.last());
                assert(alloc_ids(emitted(old(em).ops@, em.ops@)) =~= free_ids(
                    emitted(old(em).ops@, em.ops@),
                ));
            }
            return Err(RenderError::UnsupportedFeature);
        },
    };
    let buf = match pad_to(&pixels.2, buf_size) {
        Ok(b) => b,
        Err(e) => {
            let ghost p = em.ops@;
            let _ = em.emit(Op::Free { id });
            proof {
                lemma_emit_step(start.ops@, p, em.ops@.last());
                assert(alloc_ids(emitted(old(em).ops@, em.ops@)) =~= free_ids(
                    emitted(old(em).ops@, em.ops@),
                ));
            }
            return Err(e);
        },
    };
    proof {
        assert(padded_content(pixels.2@, sz64 as int, buf@));
        assert(alloc_ids(emitted(old(em).ops@, em.ops@)) =~= free_ids(
            emitted(old(em).ops@, em.ops@),
        ).insert(id));
    }
    let ghost pre_wb = *em;
    let ghost buf_view = buf@;
    let r = write_scale_blit(
        view_box,
        m2,
        target,
        em,
        Ghost(*old(em)),
        id,
        info.width as i64,
        info.height as i64,
        buf,
    );
    proof {
        lemma_extends_compose(old(em).ops@, pre_wb.ops@, em.ops@);
        assert(emitted(old(em).ops@, em.ops@).skip(1) =~= emitted(pre_wb.ops@, em.ops@));
        assert(padded_content(png_pixels_of(data@)->Some_0.2, sz64 as int, buf_view) && wb_rel(
            *view_box,
            m2@,
            target,
            id as int,
            info.width as int,
            info.height as int,
            buf_view,
            old(em).oracle@,
            old(em).ops@.len() as int + 1,
            emitted(old(em).ops@, em.ops@).skip(1),
            r,
        ));
    }
    r
}

// ------------------------------------------------------------------
// The walk relation: what visiting a node emits.
// ------------------------------------------------------------------

/// What visiting one node emits, given the parent's accumulated
/// transform model `mm`, the oracle position `pos` and the next fresh
/// buffer id: the node's local transform is composed onto `mm`
/// (failing with `OutOfRange` when the exact product leaves 64 bits);
/// a group walks its children with fail-fast; a path resolves its fill
/// per `fill_path_rel`; an image renders or decodes into a transient
/// buffer per the image relations; a text run re-enters the walk as
/// outlines with text conversion withheld, or skips with a warning.
pub open spec fn walk_rel(
    node: Node,
    mm: TransformModel,
    cfg: RenderConfig,
    target: u64,
    allow_text: bool,
    oracle: Seq<u32>,
    pos: int,
    next_id: int,
    ops: Seq<TraceEntry>,
    result: Result<(), RenderError>,
    wdelta: Seq<Warning>,
) -> bool
    decreases node, 1int, 0int,
{
    let cm = compose_model(mm, node.transform@);
    if !model_in_range(cm) {
        ops.len() == 0 && no_warnings(wdelta) && result == Result::<(), RenderError>::Err(
            RenderError::OutOfRange,
        )
    } else {
        match node.kind {
            NodeKind::Group => children_rel(
                node,
                0,
                cm,
                cfg,
                target,
                allow_text,
                oracle,
                pos,
                next_id,
                ops,
                result,
                wdelta,
            ),
            NodeKind::Path(p) => fill_path_rel(
                p,
                cm,
                cfg,
                target,
                oracle,
                pos,
                ops,
                result,
                wdelta,
            ),
            NodeKind::Image(img) => {
                if !img.visible {
                    ops.len() == 0 && no_warnings(wdelta) && result is Ok
                } else if !translation_in_range(img.view_box.x, img.view_box.y) {
                    ops.len() == 0 && no_warnings(wdelta) && result == Result::<
                        (),
                        RenderError,
                    >::Err(RenderError::OutOfRange)
                } else {
                    let m2 = compose_model(
                        cm,
                        translation_model(img.view_box.x, img.view_box.y),
                    );
                    if !model_in_range(m2) {
                        ops.len() == 0 && no_warnings(wdelta) && result == Result::<
                            (),
                            RenderError,
                        >::Err(RenderError::OutOfRange)
                    } else {
                        match img.kind {
                            ImageKind::Svg(sub) => {
                                if next_id == u64::MAX as int {
                                    ops.len() == 0 && no_warnings(wdelta) && result == Result::<
                                        (),
                                        RenderError,
                                    >::Err(RenderError::OutOfRange)
                                } else {
                                    let st0 = status_at(oracle, pos);
                                    &&& ops.len() >= 1
                                    &&& ent_alloc(
                                        ops[0],
                                        next_id,
                                        spec_trunc(img.view_box.width),
                                        spec_trunc(img.view_box.height),
                                        BufFormat::Rgba8888,
                                        st0,
                                    )
                                    &&& if st0 != STATUS_OK {
                                        ops.len() == 1 && no_warnings(wdelta) && result
                                            == Result::<(), RenderError>::Err(
                                            RenderError::Backend(st0),
                                        )
                                    } else {
                                        exists|k: int, r_sub: Result<(), RenderError>|
                                            {
                                                &&& #[trigger] walk_split(k, 0, r_sub)
                                                &&& 1 <= k <= ops.len()
                                                &&& walk_rel(
                                                    *sub,
                                                    identity_model(),
                                                    cfg,
                                                    next_id as u64,
                                                    allow_text,
                                                    oracle,
                                                    pos + 1,
                                                    next_id + 1,
                                                    ops.subrange(1, k),
                                                    r_sub,
                                                    wdelta,
                                                )
                                                &&& (r_sub is Err ==> {
                                                    &&& ops.len() == k + 1
                                                    &&& ent_free(
                                                        ops[k],
                                                        next_id,
                                                        status_at(oracle, pos + k),
                                                    )
                                                    &&& result == Result::<(), RenderError>::Err(
                                                        r_sub->Err_0,
                                                    )
                                                })
                                                &&& (r_sub is Ok ==> tail_rel(
                                                    target,
                                                    next_id,
                                                    m2,
                                                    oracle,
                                                    pos + k,
                                                    ops.skip(k),
                                                    result,
                                                ))
                                            }
                                    }
                                }
                            },
                            ImageKind::Jpeg(d) => no_warnings(wdelta) && jpeg_rel(
                                d@,
                                img.view_box,
                                m2,
                                target,
                                oracle,
                                pos,
                                next_id,
                                ops,
                                result,
                            ),
                            ImageKind::Png(d) => no_warnings(wdelta) && png_rel(
                                d@,
                                img.view_box,
                                m2,
                                target,
                                oracle,
                                pos,
                                next_id,
                                ops,
                                result,
                            ),
                            ImageKind::Gif(_) => ops.len() == 0 && no_warnings(wdelta) && result
                                == Result::<(), RenderError>::Err(
                                RenderError::UnsupportedFeature,
                            ),
                        }
                    }
                }
            },
            NodeKind::Text(t) => {
                if !allow_text {
                    ops.len() == 0 && wdelta == seq![Warning::TextWithoutFontDatabase] && result
                        is Ok
                } else {
                    match t.resolved {
                        TextResolved::NoFont => ops.len() == 0 && wdelta == seq![
                            Warning::TextWithoutFontDatabase,
                        ] && result is Ok,
                        TextResolved::Unconvertible => ops.len() == 0 && no_warnings(wdelta)
                            && result == Result::<(), RenderError>::Err(
                            RenderError::UnsupportedFeature,
                        ),
                        TextResolved::Outline(sub) => walk_rel(
                            *sub,
                            cm,
                            cfg,
                            target,
                            false,
                            oracle,
                            pos,
                            next_id,
                            ops,
                            result,
                            wdelta,
                        ),
                    }
                }
            },
        }
    }
}

/// What walking a group's children from index `idx` on emits: each
/// child's emission under the group's composed transform, concatenated
/// in document order, stopping at the first child that fails and
/// returning its error unchanged; success exactly when every child
/// succeeds.
pub open spec fn children_rel(
    node: Node,
    idx: int,
    cm: TransformModel,
    cfg: RenderConfig,
    target: u64,
    allow_text: bool,
    oracle: Seq<u32>,
    pos: int,
    next_id: int,
    ops: Seq<TraceEntry>,
    result: Result<(), RenderError>,
    wdelta: Seq<Warning>,
) -> bool
    decreases node, 0int, node.children@.len() - idx,
{
    if idx < 0 || idx >= node.children@.len() {
        ops.len() == 0 && no_warnings(wdelta) && result is Ok
    } else {
        exists|k: int, wk: int, r1: Result<(), RenderError>|
            {
                &&& #[trigger] walk_split(k, wk, r1)
                &&& 0 <= k <= ops.len()
                &&& 0 <= wk <= wdelta.len()
                &&& walk_rel(
                    node.children@[idx],
                    cm,
                    cfg,
                    target,
                    allow_text,
                    oracle,
                    pos,
                    next_id,
                    ops.take(k),
                    r1,
                    wdelta.take(wk),
                )
                &&& (r1 is Err ==> k == ops.len() && wk == wdelta.len() && result == r1)
                &&& (r1 is Ok ==> children_rel(
                    node,
                    idx + 1,
                    cm,
                    cfg,
                    target,
                    allow_text,
                    oracle,
                    pos + k,
                    next_id + allocs_in(ops.take(k)),
                    ops.skip(k),
                    result,
                    wdelta.skip(wk),
                ))
            }
    }
}

proof fn lemma_warn_compose(a: Seq<Warning>, b: Seq<Warning>, c: Seq<Warning>)
    requires
        extends(a, b),
        extends(b, c),
    ensures
        extends(a, c),
        emitted(a, c) == emitted(a, b) + emitted(b, c),
{
    assert(c.take(a.len() as int) =~= a) by {
        assert(forall|i: int|
            0 <= i < a.len() ==> c.take(a.len() as int)[i] == c.take(b.len() as int)[i]);
    }
    assert(emitted(a, c) =~= emitted(a, b) + emitted(b, c)) by {
        assert(forall|i: int|
            0 <= i < b.len() - a.len() ==> emitted(a, c)[i] == c.take(b.len() as int)[a.len()
                + i]);
    }
}

/// Introduces `children_rel` for the fail-fast case: the child at
/// `idx` failed, so its emission is the whole emission and its error
/// the result.
proof fn lemma_children_rel_err(
    node: Node,
    idx: int,
    cm: TransformModel,
    cfg: RenderConfig,
    target: u64,
    allow_text: bool,
    oracle: Seq<u32>,
    pos: int,
    next_id: int,
    ops: Seq<TraceEntry>,
    e: Result<(), RenderError>,
    wdelta: Seq<Warning>,
)
    requires
        0 <= idx < node.children@.len(),
        walk_rel(
            node.children@[idx],
            cm,
            cfg,
            target,
            allow_text,
            oracle,
            pos,
            next_id,
            ops,
            e,
            wdelta,
        ),
        e is Err,
    ensures
        children_rel(node, idx, cm, cfg, target, allow_text, oracle, pos, next_id, ops, e, wdelta),
{
    let k = ops.len() as int;
    let wk = wdelta.len() as int;
    assert(walk_split(k, wk, e));
    assert(ops.take(k) =~= ops);
    assert(wdelta.take(wk) =~= wdelta);
    assert(walk_rel(
        node.children@[idx],
        cm,
        cfg,
        target,
        allow_text,
        oracle,
        pos,
        next_id,
        ops.take(k),
        e,
        wdelta.take(wk),
    ));
}

/// Introduces `children_rel` for the step case: the child at `idx`
/// succeeded with emission `ops1`, and the remaining children satisfy
/// the relation for the rest.
proof fn lemma_children_rel_step(
    node: Node,
    idx: int,
    cm: TransformModel,
    cfg: RenderConfig,
    target: u64,
    allow_text: bool,
    oracle: Seq<u32>,
    pos: int,
    next_id: int,
    ops1: Seq<TraceEntry>,
    w1: Seq<Warning>,
    e: Result<(), RenderError>,
    ops2: Seq<TraceEntry>,
    w2: Seq<Warning>,
    result: Result<(), RenderError>,
)
    requires
        0 <= idx < node.children@.len(),
        walk_rel(
            node.children@[idx],
            cm,
            cfg,
            target,
            allow_text,
            oracle,
            pos,
            next_id,
            ops1,
            e,
            w1,
        ),
        e is Ok,
        children_rel(
            node,
            idx + 1,
            cm,
            cfg,
            target,
            allow_text,
            oracle,
            pos + ops1.len(),
            next_id + allocs_in(ops1),
            ops2,
            result,
            w2,
        ),
    ensures
        children_rel(
            node,
            idx,
            cm,
            cfg,
            target,
            allow_text,
            oracle,
            pos,
            next_id,
            ops1 + ops2,
            result,
            w1 + w2,
        ),
{
    let ops = ops1 + ops2;
    let wdelta = w1 + w2;
    let k = ops1.len() as int;
    let wk0 = w1.len() as int;
    assert(walk_split(k, wk0, e));
    let wk = w1.len() as int;
    assert(ops.take(k) =~= ops1);
    assert(ops.skip(k) =~= ops2);
    assert(wdelta.take(wk) =~= w1);
    assert(wdelta.skip(wk) =~= w2);
    assert(walk_rel(
        node.children@[idx],
        cm,
        cfg,
        target,
        allow_text,
        oracle,
        pos,
        next_id,
        ops.take(k),
        e,
        wdelta.take(wk),
    ));
    assert(children_rel(
        node,
        idx + 1,
        cm,
        cfg,
        target,
        allow_text,
        oracle,
        pos + k,
        next_id + allocs_in(ops.take(k)),
        ops.skip(k),
        result,
        wdelta.skip(wk),
    ));
}

/// The recursive depth-first walk; what it emits is fixed by
/// `walk_rel`, and every transient buffer allocation stays matched by
/// exactly one free, whatever path the walk takes.
pub fn dfs(
    node: &Node,
    mat: &Transform,
    cfg: &RenderConfig,
    target: u64,
    allow_text: bool,
    em: &mut Emitter,
) -> (r: Result<(), RenderError>)
    requires
        node_wf(*node),
        mat.wf(),
        old(em).wf(),
    ensures
        evolves(*old(em), *final(em)),
        emits_balanced(*old(em), *final(em)),
        ids_bounded(
            emitted(old(em).ops@, final(em).ops@),
            old(em).next_id as int,
            final(em).next_id as int,
        ),
        walk_rel(
            *node,
            mat@,
            *cfg,
            target,
            allow_text,
            old(em).oracle@,
            old(em).ops@.len() as int,
            old(em).next_id as int,
            emitted(old(em).ops@, final(em).ops@),
            r,
            emitted(old(em).warnings@, final(em).warnings@),
        ),
    decreases *node, 1int, 0int,
{
    proof {
        lemma_extends_refl(old(em).ops@);
        lemma_warn_extends_refl(old(em).warnings@);
        assert(ids_bounded(
            emitted(old(em).ops@, em.ops@),
            old(em).next_id as int,
            em.next_id as int,
        ));
    }
    let m = match mat.compose(&node.transform) {
        Some(t) => t,
        None => { return Err(RenderError::OutOfRange) },
    };
    match &node.kind {
        NodeKind::Group => dfs_children(node, 0, &m, cfg, target, allow_text, em),
        NodeKind::Path(p) => {
            proof {
                assert(kind_wf(node.kind));
                assert(path_node_wf(*p));
            }
            fill_path(p, &m, cfg, target, em)
        },
        NodeKind::Image(img) => {
            proof {
                assert(kind_wf(node.kind));
                assert(img.view_box.wf());
            }
            if !img.visible {
                return Ok(());
            }
            let tr = match Transform::translation(img.view_box.x, img.view_box.y) {
                Some(t) => t,
                None => { return Err(RenderError::OutOfRange) },
            };
            let m2 = match m.compose(&tr) {
                Some(t) => t,
                None => { return Err(RenderError::OutOfRange) },
            };
            match &img.kind {
                ImageKind::Svg(sub) => {
                    if em.next_id == u64::MAX {
                        return Err(RenderError::OutOfRange);
                    }
                    let w = img.view_box.width.trunc();
                    let h = img.view_box.height.trunc();
                    let ghost start = *em;
                    let (id, st) = em.emit_alloc(w, h, BufFormat::Rgba8888);
                    proof {
                        lemma_emit_step(start.ops@, start.ops@, em.ops@.last());
                    }
                    if st != STATUS_OK {
                        proof {
                            assert(entry_alloc_id(em.ops@.last()) =~= Multiset::<u64>::empty());
                            assert(alloc_ids(emitted(old(em).ops@, em.ops@)) =~= free_ids(
                                emitted(old(em).ops@, em.ops@),
                            ));
                        }
                        return Err(RenderError::Backend(st));
                    }
                    proof {
                        assert(decreases_to!(*node => **sub));
                        assert(node_wf(**sub));
                    }
                    let ghost pre = *em;
                    let ident = Transform::identity();
                    let rr = dfs(sub, &ident, cfg, id, allow_text, em);
                    proof {
                        lemma_extends_compose(start.ops@, pre.ops@, em.ops@);
                        lemma_warn_compose(start.warnings@, pre.warnings@, em.warnings@);
                        assert(emitted(old(em).ops@, em.ops@).subrange(
                            1,
                            emitted(old(em).ops@, em.ops@).len() as int,
                        ) =~= emitted(pre.ops@, em.ops@));
                    }
                    if let Err(e) = rr {
                        let ghost p = em.ops@;
                        let ghost sub_len = emitted(pre.ops@, em.ops@).len() as int;
                        let _ = em.emit(Op::Free { id });
                        proof {
                            lemma_emit_step(start.ops@, p, em.ops@.last());
                            assert(alloc_ids(emitted(old(em).ops@, em.ops@)) =~= free_ids(
                                emitted(old(em).ops@, em.ops@),
                            ));
                            let total = emitted(old(em).ops@, em.ops@);
                            assert(total.subrange(1, 1 + sub_len) =~= emitted(pre.ops@, p).push(
                                em.ops@.last(),
                            ).take(sub_len));
                            assert(emitted(pre.ops@, p).push(em.ops@.last()).take(sub_len)
                                =~= emitted(pre.ops@, p));
                            assert(walk_split(1 + sub_len, 0, rr));
                            assert(walk_rel(
                                **sub,
                                identity_model(),
                                *cfg,
                                id,
                                allow_text,
                                old(em).oracle@,
                                old(em).ops@.len() as int + 1,
                                old(em).next_id as int + 1,
                                total.subrange(1, 1 + sub_len),
                                rr,
                                emitted(old(em).warnings@, em.warnings@),
                            ));
                        }
                        return Err(e);
                    }
                    let ghost pre_tail = *em;
                    let ghost sub_len = emitted(pre.ops@, em.ops@).len() as int;
                    let r = finish_blit_free(target, id, &m2, em);
                    proof {
                        lemma_extends_compose(start.ops@, pre_tail.ops@, em.ops@);
                        lemma_warn_compose(start.warnings@, pre_tail.warnings@, em.warnings@);
                        assert(alloc_ids(emitted(old(em).ops@, em.ops@)) =~= free_ids(
                            emitted(old(em).ops@, em.ops@),
                        ));
                        let total = emitted(old(em).ops@, em.ops@);
                        assert(total.subrange(1, 1 + sub_len) =~= emitted(pre.ops@, pre_tail.ops@));
                        assert(total.skip(1 + sub_len) =~= emitted(pre_tail.ops@, em.ops@));
                        assert(walk_split(1 + sub_len, 0, rr));
                        assert(walk_rel(
                            **sub,
                            identity_model(),
                            *cfg,
                            id,
                            allow_text,
                            old(em).oracle@,
                            old(em).ops@.len() as int + 1,
                            old(em).next_id as int + 1,
                            total.subrange(1, 1 + sub_len),
                            rr,
                            emitted(old(em).warnings@, em.warnings@),
                        ));
                    }
                    r
                },
                ImageKind::Jpeg(data) => raster_jpeg(data, &img.view_box, &m2, target, em),
                ImageKind::Png(data) => raster_png(data, &img.view_box, &m2, target, em),
                ImageKind::Gif(_) => Err(RenderError::UnsupportedFeature),
            }
        },
        NodeKind::Text(t) => {
            if !allow_text {
                let ghost wprev = em.warnings@;
                em.warn(Warning::TextWithoutFontDatabase);
                proof {
                    lemma_warn_push(old(em).warnings@, wprev, Warning::TextWithoutFontDatabase);
                    assert(emitted(old(em).warnings@, em.warnings@) =~= seq![
                        Warning::TextWithoutFontDatabase,
                    ]);
                }
                return Ok(());
            }
            match &t.resolved {
                TextResolved::NoFont => {
                    let ghost wprev = em.warnings@;
                    em.warn(Warning::TextWithoutFontDatabase);
                    proof {
                        lemma_warn_push(
                            old(em).warnings@,
                            wprev,
                            Warning::TextWithoutFontDatabase,
                        );
                        assert(emitted(old(em).warnings@, em.warnings@) =~= seq![
                            Warning::TextWithoutFontDatabase,
                        ]);
                    }
                    Ok(())
                },
                TextResolved::Unconvertible => Err(RenderError::UnsupportedFeature),
                TextResolved::Outline(sub) => {
                    proof {
                        assert(decreases_to!(*node => **sub));
                        assert(kind_wf(node.kind));
                        assert(node_wf(**sub));
                    }
                    dfs(sub, &m, cfg, target, false, em)
                },
            }
        },
    }
}

/// Walks a group's children from index `i` on, failing fast; what it
/// emits is fixed by `children_rel`.
fn dfs_children(
    node: &Node,
    i: usize,
    m: &Transform,
    cfg: &RenderConfig,
    target: u64,
    allow_text: bool,
    em: &mut Emitter,
) -> (r: Result<(), RenderError>)
    requires
        node_wf(*node),
        m.wf(),
        old(em).wf(),
        0 <= i <= node.children@.len(),
    ensures
        evolves(*old(em), *final(em)),
        emits_balanced(*old(em), *final(em)),
        ids_bounded(
            emitted(old(em).ops@, final(em).ops@),
            old(em).next_id as int,
            final(em).next_id as int,
        ),
        children_rel(
            *node,
            i as int,
            m@,
            *cfg,
            target,
            allow_text,
            old(em).oracle@,
            old(em).ops@.len() as int,
            old(em).next_id as int,
            emitted(old(em).ops@, final(em).ops@),
            r,
            emitted(old(em).warnings@, final(em).warnings@),
        ),
    decreases *node, 0int, node.children@.len() - i,
{
    proof {
        lemma_extends_refl(old(em).ops@);
        lemma_warn_extends_refl(old(em).warnings@);
        assert(ids_bounded(
            emitted(old(em).ops@, em.ops@),
            old(em).next_id as int,
            em.next_id as int,
        ));
    }
    if i >= node.children.len() {
        return Ok(());
    }
    proof {
        assert(decreases_to!(*node => node.children@[i as int]));
        assert(node_wf(node.children@[i as int]));
    }
    let ghost pre = *em;
    let e = dfs(&node.children[i], m, cfg, target, allow_text, em);
    proof {
        lemma_extends_compose(old(em).ops@, pre.ops@, em.ops@);
        lemma_warn_compose(old(em).warnings@, pre.warnings@, em.warnings@);
    }
    if let Err(err) = e {
        proof {
            lemma_children_rel_err(
                *node,
                i as int,
                m@,
                *cfg,
                target,
                allow_text,
                old(em).oracle@,
                old(em).ops@.len() as int,
                old(em).next_id as int,
                emitted(old(em).ops@, em.ops@),
                e,
                emitted(old(em).warnings@, em.warnings@),
            );
        }
        return Err(err);
    }
    let ghost mid = *em;
    let r = dfs_children(node, i + 1, m, cfg, target, allow_text, em);
    proof {
        lemma_extends_compose(old(em).ops@, mid.ops@, em.ops@);
        lemma_warn_compose(old(em).warnings@, mid.warnings@, em.warnings@);
        lemma_children_rel_step(
            *node,
            i as int,
            m@,
            *cfg,
            target,
            allow_text,
            old(em).oracle@,
            old(em).ops@.len() as int,
            old(em).next_id as int,
            emitted(old(em).ops@, mid.ops@),
            emitted(old(em).warnings@, mid.warnings@),
            e,
            emitted(mid.ops@, em.ops@),
            emitted(mid.warnings@, em.warnings@),
            r,
        );
    }
    r
}

/// Every allocate and free of the trace names a transient id, never
/// the caller's target buffer.
pub open spec fn spares_target(trace: Seq<TraceEntry>, target_id: u64) -> bool {
    forall|k: int|
        0 <= k < trace.len() ==> match (#[trigger] trace[k]).op {
            Op::Allocate { id, .. } => id > target_id,
            Op::Free { id } => id > target_id,
            _ => true,
        }
}

/// What a whole render emits and returns: a viewbox without positive
/// size is malformed input and nothing is emitted; a viewbox matrix
/// out of the 64-bit range emits nothing and fails; otherwise the
/// trace is exactly the walk of the root under the viewbox matrix,
/// followed — when the walk succeeds — by one final flush whose status
/// decides the result. With success statuses at every used position
/// and a supported, in-range scene, the result is owed to be `Ok`.
pub open spec fn render_rel(
    tree: Tree,
    cfg: RenderConfig,
    target_id: u64,
    tw: int,
    th: int,
    fonts_available: bool,
    oracle: Seq<u32>,
    trace: Seq<TraceEntry>,
    result: Result<(), RenderError>,
    warnings: Seq<Warning>,
) -> bool {
    let vb = tree.view_box;
    if !(vb.width.num >= 1 && vb.height.num >= 1) {
        trace.len() == 0 && no_warnings(warnings) && result == Result::<(), RenderError>::Err(
            RenderError::MalformedInput,
        )
    } else if !viewbox_in_range(vb.x, vb.y, vb.width, vb.height, tw, th) {
        trace.len() == 0 && no_warnings(warnings) && result == Result::<(), RenderError>::Err(
            RenderError::OutOfRange,
        )
    } else {
        exists|k: int, rw: Result<(), RenderError>|
            {
                &&& #[trigger] walk_split(k, 0, rw)
                &&& 0 <= k <= trace.len()
                &&& walk_rel(
                    tree.root,
                    viewbox_model(vb.x, vb.y, vb.width, vb.height, tw, th),
                    cfg,
                    target_id,
                    fonts_available,
                    oracle,
                    0,
                    target_id as int + 1,
                    trace.take(k),
                    rw,
                    warnings,
                )
                &&& (rw is Err ==> k == trace.len() && result == rw)
                &&& (rw is Ok ==> {
                    let st = status_at(oracle, k);
                    &&& trace.len() == k + 1
                    &&& ent_finish(trace[k], st)
                    &&& (st == STATUS_OK ==> result is Ok)
                    &&& (st != STATUS_OK ==> result == Result::<(), RenderError>::Err(
                        RenderError::Backend(st),
                    ))
                })
            }
    }
}

/// Renders a whole scene onto the caller-owned target buffer: the
/// viewbox matrix maps the document's coordinate window onto the
/// `target_width` by `target_height` device surface, the walk emits
/// the scene's draw operations per `render_rel`, and one final flush
/// closes the render. Every transient buffer allocated along the way —
/// and only those, never the target — is freed exactly once, whether
/// the render succeeds or fails.
pub fn svglite_render(
    target_id: u64,
    target_width: i64,
    target_height: i64,
    tree: &Tree,
    cfg: &RenderConfig,
    fonts_available: bool,
    oracle: Vec<u32>,
) -> (r: (Result<(), RenderError>, Vec<TraceEntry>, Vec<Warning>))
    requires
        tree_wf(*tree),
        target_id < u64::MAX,
    ensures
        balanced(r.1@),
        spares_target(r.1@, target_id),
        render_rel(
            *tree,
            *cfg,
            target_id,
            target_width as int,
            target_height as int,
            fonts_available,
            oracle@,
            r.1@,
            r.0,
            r.2@,
        ),
        r.0 is Ok ==> r.1@.len() >= 1 && r.1@.last().op == Op::Finish && r.1@.last().status
            == STATUS_OK,
{
    let mut em = Emitter::new(oracle, target_id + 1);
    let ghost em0 = em;
    proof {
        lemma_extends_refl(em.ops@);
        lemma_warn_extends_refl(em.warnings@);
    }
    if !(tree.view_box.width.num >= 1 && tree.view_box.height.num >= 1) {
        return (Err(RenderError::MalformedInput), em.ops, em.warnings);
    }
    let viewbox_mat = match viewbox_matrix(
        tree.view_box.x,
        tree.view_box.y,
        tree.view_box.width,
        tree.view_box.height,
        target_width,
        target_height,
    ) {
        Some(t) => t,
        None => {
            return (Err(RenderError::OutOfRange), em.ops, em.warnings);
        },
    };
    let rr = dfs(&tree.root, &viewbox_mat, cfg, target_id, fonts_available, &mut em);
    proof {
        assert(emitted(em0.ops@, em.ops@) =~= em.ops@);
        assert(emitted(em0.warnings@, em.warnings@) =~= em.warnings@);
        assert forall|k: int| 0 <= k < em.ops@.len() implies match (#[trigger] em.ops@[k]).op {
            Op::Allocate { id, .. } => id > target_id,
            Op::Free { id } => id > target_id,
            _ => true,
        } by {
            assert(entry_id_in(em.ops@[k], target_id as int + 1, em.next_id as int));
        }
    }
    if let Err(e) = rr {
        proof {
            assert(walk_split(em.ops@.len() as int, 0, rr));
            assert(em.ops@.take(em.ops@.len() as int) =~= em.ops@);
        }
        return (Err(e), em.ops, em.warnings);
    }
    let ghost pre = em.ops@;
    let ghost walk_len = em.ops@.len() as int;
    let st = em.emit(Op::Finish);
    proof {
        lemma_emit_neutral(em0.ops@, pre, em.ops@.last());
        assert(emitted(em0.ops@, em.ops@) =~= em.ops@);
        assert(walk_split(walk_len, 0, rr));
        assert(em.ops@.take(walk_len) =~= pre);
        assert forall|k: int| 0 <= k < em.ops@.len() implies match (#[trigger] em.ops@[k]).op {
            Op::Allocate { id, .. } => id > target_id,
            Op::Free { id } => id > target_id,
            _ => true,
        } by {
            if k < pre.len() {
                assert(em.ops@[k] == pre[k]);
                assert(entry_id_in(pre[k], target_id as int + 1, em.next_id as int));
            } else {
                assert(em.ops@[k] == em.ops@.last());
            }
        }
    }
    if st != STATUS_OK {
        return (Err(RenderError::Backend(st)), em.ops, em.warnings);
    }
    (Ok(()), em.ops, em.warnings)
}

} // verus!
