//! The rasterizer backend's call contract, modeled as data: the walk
//! emits an ordered trace of backend operations, and the status each
//! call returned is drawn from a status oracle supplied by the caller
//! (the real driver's answers, or all-success). A status of zero is
//! success; any other value is a backend failure. The trace makes the
//! buffer lifecycle checkable: every successfully allocated transient
//! buffer is freed exactly once, on every exit path.

use vstd::multiset::Multiset;
use vstd::prelude::*;

use crate::paint::GradientPlacement;
use crate::path::PathCmd;
use crate::transform::Transform;

verus! {

/// The status value that stands for success.
pub const STATUS_OK: u32 = 0;

/// How a render fails.
#[derive(Debug, Clone, Copy, PartialEq, Eq, Structural)]
pub enum RenderError {
    /// A backend call returned a non-success status; the value is that
    /// status. Fatal: the traversal stops at once.
    Backend(u32),
    /// A recognized but unsupported feature whose policy is to fail:
    /// a gradient with too many stops, an unsupported raster subformat,
    /// a text run that could not be converted to outlines.
    UnsupportedFeature,
    /// A decoded buffer did not match its declared size.
    MalformedInput,
    /// An exact coordinate computation left the 64-bit range.
    OutOfRange,
}

/// A pixel format of a target or transient buffer.
#[derive(Debug, Clone, Copy, PartialEq, Eq, Structural)]
pub enum BufFormat {
    L8,
    Rgba8888,
    Bgra8888,
}

impl BufFormat {
    /// Bytes per pixel of the format.
    pub open spec fn spec_bytes_per_pixel(self) -> int {
        match self {
            BufFormat::L8 => 1,
            BufFormat::Rgba8888 => 4,
            BufFormat::Bgra8888 => 4,
        }
    }

    pub fn bytes_per_pixel(self) -> (r: u32)
        ensures
            r == self.spec_bytes_per_pixel(),
    {
        match self {
            BufFormat::L8 => 1,
            BufFormat::Rgba8888 => 4,
            BufFormat::Bgra8888 => 4,
        }
    }
}

/// The winding rule for path interiors.
#[derive(Debug, Clone, Copy, PartialEq, Eq, Structural)]
pub enum FillRule {
    NonZero,
    EvenOdd,
}

/// The blend mode of a draw or blit.
#[derive(Debug, Clone, Copy, PartialEq, Eq, Structural)]
pub enum Blend {
    NoBlend,
    SrcOver,
}

/// The sampling filter of a blit.
#[derive(Debug, Clone, Copy, PartialEq, Eq, Structural)]
pub enum Filter {
    Point,
    Linear,
    BiLinear,
}

/// The rendering quality requested of the backend.
#[derive(Debug, Clone, Copy, PartialEq, Eq, Structural)]
pub enum Quality {
    Low,
    Medium,
    High,
}

/// One backend operation. Buffer ids name buffers: the caller-owned
/// target carries the id the caller gave it; transient buffers carry
/// fresh ids handed out by the emitter.
#[derive(Debug, Clone, PartialEq)]
pub enum Op {
    /// Allocate a transient buffer.
    Allocate { id: u64, width: i64, height: i64, format: BufFormat },
    /// Clear a buffer to a color.
    Clear { target: u64, color: u32 },
    /// Fill a buffer's pixel memory with decoded bytes (a CPU-side
    /// copy, carried in the trace so the blit's source is explicit).
    WritePixels { id: u64, data: Vec<u8> },
    /// Draw a filled path with a solid color.
    Draw {
        target: u64,
        path: Vec<PathCmd>,
        fill_rule: FillRule,
        matrix: Transform,
        blend: Blend,
        quality: Quality,
        color: u32,
    },
    /// Initialize a gradient descriptor.
    InitGradient,
    /// Fill the gradient descriptor's stop table.
    SetGradientStops { offsets: Vec<u32>, colors: Vec<u32> },
    /// Bake the descriptor's ramp.
    UpdateGradient,
    /// Draw a filled path with the gradient descriptor, placed by the
    /// given placement.
    DrawGradient {
        target: u64,
        path: Vec<PathCmd>,
        fill_rule: FillRule,
        matrix: Transform,
        placement: GradientPlacement,
        blend: Blend,
    },
    /// Copy a source buffer into a target under a transform.
    Blit { target: u64, source: u64, matrix: Transform, blend: Blend, filter: Filter },
    /// Flush all outstanding work.
    Finish,
    /// Release a transient buffer.
    Free { id: u64 },
}

/// One trace entry: an operation and the status the backend returned
/// for it.
#[derive(Debug, Clone, PartialEq)]
pub struct TraceEntry {
    pub op: Op,
    pub status: u32,
}

/// A non-fatal condition that skips a node.
#[derive(Debug, Clone, Copy, PartialEq, Eq, Structural)]
pub enum Warning {
    /// A path's bounding box could not be read; the path is skipped.
    PathWithoutBoundingBox,
    /// No font database was supplied; the text run is skipped.
    TextWithoutFontDatabase,
}

/// The status of the `k`-th backend call under oracle `oracle`: the
/// oracle's value there, or success once the oracle is exhausted.
pub open spec fn status_at(oracle: Seq<u32>, k: int) -> u32 {
    if 0 <= k < oracle.len() {
        oracle[k]
    } else {
        STATUS_OK
    }
}

/// The ids of the successful `Allocate` entries of a trace, with
/// multiplicity.
pub open spec fn alloc_ids(t: Seq<TraceEntry>) -> Multiset<u64>
    decreases t.len(),
{
    if t.len() == 0 {
        Multiset::empty()
    } else {
        alloc_ids(t.drop_last()).add(entry_alloc_id(t.last()))
    }
}

/// The ids of the `Free` entries of a trace, with multiplicity.
pub open spec fn free_ids(t: Seq<TraceEntry>) -> Multiset<u64>
    decreases t.len(),
{
    if t.len() == 0 {
        Multiset::empty()
    } else {
        free_ids(t.drop_last()).add(entry_free_id(t.last()))
    }
}

pub open spec fn entry_alloc_id(e: TraceEntry) -> Multiset<u64> {
    match e.op {
        Op::Allocate { id, .. } => if e.status == STATUS_OK {
            Multiset::empty().insert(id)
        } else {
            Multiset::empty()
        },
        _ => Multiset::empty(),
    }
}

pub open spec fn entry_free_id(e: TraceEntry) -> Multiset<u64> {
    match e.op {
        Op::Free { id } => Multiset::empty().insert(id),
        _ => Multiset::empty(),
    }
}

/// A trace is balanced when every successful allocation is freed
/// exactly as often as it was allocated, and nothing else is freed.
pub open spec fn balanced(t: Seq<TraceEntry>) -> bool {
    alloc_ids(t) == free_ids(t)
}

pub proof fn lemma_alloc_ids_concat(a: Seq<TraceEntry>, b: Seq<TraceEntry>)
    ensures
        alloc_ids(a + b) == alloc_ids(a).add(alloc_ids(b)),
        free_ids(a + b) == free_ids(a).add(free_ids(b)),
    decreases b.len(),
{
    if b.len() == 0 {
        assert(a + b =~= a);
        assert(alloc_ids(a + b) == alloc_ids(a));
        assert(alloc_ids(a).add(Multiset::empty()) =~= alloc_ids(a));
        assert(free_ids(a).add(Multiset::empty()) =~= free_ids(a));
    } else {
        lemma_alloc_ids_concat(a, b.drop_last());
        assert((a + b).drop_last() =~= a + b.drop_last());
        assert((a + b).last() == b.last());
        assert(alloc_ids(a + b) == alloc_ids(a + b.drop_last()).add(entry_alloc_id(b.last())));
        assert(alloc_ids(a).add(alloc_ids(b.drop_last())).add(entry_alloc_id(b.last()))
            =~= alloc_ids(a).add(alloc_ids(b.drop_last()).add(entry_alloc_id(b.last()))));
        assert(free_ids(a).add(free_ids(b.drop_last())).add(entry_free_id(b.last()))
            =~= free_ids(a).add(free_ids(b.drop_last()).add(entry_free_id(b.last()))));
    }
}

/// Appending one entry adds exactly its contribution to either
/// multiset.
pub proof fn lemma_ids_push(t: Seq<TraceEntry>, e: TraceEntry)
    ensures
        alloc_ids(t.push(e)) == alloc_ids(t).add(entry_alloc_id(e)),
        free_ids(t.push(e)) == free_ids(t).add(entry_free_id(e)),
{
    assert(t.push(e).drop_last() =~= t);
    assert(t.push(e).last() == e);
}

/// The emitter: the trace so far, the status oracle, and the source of
/// fresh transient-buffer ids.
pub struct Emitter {
    pub ops: Vec<TraceEntry>,
    pub oracle: Vec<u32>,
    pub next_id: u64,
    pub warnings: Vec<Warning>,
}

impl Emitter {
    /// Every entry's status is the oracle's answer for its position,
    /// and allocated ids are distinct and below the id counter.
    pub open spec fn wf(self) -> bool {
        &&& forall|k: int|
            0 <= k < self.ops@.len() ==> (#[trigger] self.ops@[k]).status == status_at(
                self.oracle@,
                k,
            )
        &&& forall|k: int|
            0 <= k < self.ops@.len() ==> match (#[trigger] self.ops@[k]).op {
                Op::Allocate { id, .. } => id < self.next_id,
                _ => true,
            }
        &&& forall|k1: int, k2: int|
            0 <= k1 < k2 < self.ops@.len() ==> match (
                (#[trigger] self.ops@[k1]).op,
                (#[trigger] self.ops@[k2]).op,
            ) {
                (Op::Allocate { id: id1, .. }, Op::Allocate { id: id2, .. }) => id1 != id2,
                _ => true,
            }
    }

    /// A fresh emitter over a status oracle. Transient ids start after
    /// `first_transient_id`, so the caller's own buffer ids stay apart.
    pub fn new(oracle: Vec<u32>, first_transient_id: u64) -> (r: Emitter)
        ensures
            r.wf(),
            r.ops@.len() == 0,
            r.oracle == oracle,
            r.next_id == first_transient_id,
            r.warnings@.len() == 0,
    {
        Emitter { ops: Vec::new(), oracle, next_id: first_transient_id, warnings: Vec::new() }
    }

    /// Emits one non-allocating operation and returns the status the
    /// backend gave it.
    pub fn emit(&mut self, op: Op) -> (st: u32)
        requires
            old(self).wf(),
            !(op is Allocate),
        ensures
            final(self).wf(),
            st == status_at(old(self).oracle@, old(self).ops@.len() as int),
            final(self).ops@ == old(self).ops@.push(TraceEntry { op, status: st }),
            final(self).oracle == old(self).oracle,
            final(self).next_id == old(self).next_id,
            final(self).warnings == old(self).warnings,
    {
        let pos = self.ops.len();
        let st: u32 = if pos < self.oracle.len() {
            self.oracle[pos]
        } else {
            STATUS_OK
        };
        self.ops.push(TraceEntry { op, status: st });
        st
    }

    /// Emits an `Allocate` with a fresh id and returns the id and the
    /// allocation's status.
    pub fn emit_alloc(&mut self, width: i64, height: i64, format: BufFormat) -> (r: (u64, u32))
        requires
            old(self).wf(),
            old(self).next_id < u64::MAX,
        ensures
            final(self).wf(),
            r.0 == old(self).next_id,
            r.1 == status_at(old(self).oracle@, old(self).ops@.len() as int),
            final(self).ops@ == old(self).ops@.push(
                TraceEntry { op: Op::Allocate { id: r.0, width, height, format }, status: r.1 },
            ),
            final(self).oracle == old(self).oracle,
            final(self).next_id == old(self).next_id + 1,
            final(self).warnings == old(self).warnings,
    {
        let id = self.next_id;
        let pos = self.ops.len();
        let st: u32 = if pos < self.oracle.len() {
            self.oracle[pos]
        } else {
            STATUS_OK
        };
        self.ops.push(TraceEntry { op: Op::Allocate { id, width, height, format }, status: st });
        self.next_id = self.next_id + 1;
        (id, st)
    }

    /// Records a non-fatal warning.
    pub fn warn(&mut self, w: Warning)
        requires
            old(self).wf(),
        ensures
            final(self).wf(),
            final(self).ops == old(self).ops,
            final(self).oracle == old(self).oracle,
            final(self).next_id == old(self).next_id,
            final(self).warnings@ == old(self).warnings@.push(w),
    {
        self.warnings.push(w);
    }
}

} // verus!
