//! Sizes and layouts of the renderer's GPU resources: the clamped output
//! size, histogram and dispatch sizes, read-back row padding, and the flat
//! variation table that the iteration kernel indexes.
use vstd::prelude::*;
use vstd::arithmetic::div_mod::lemma_fundamental_div_mod_converse;
use crate::flame::VariEntry;

verus! {

/// Smallest output width or height the renderer accepts.
pub const MIN_OUTPUT_DIM: u32 = 32;

/// Largest output width or height the renderer accepts.
pub const MAX_OUTPUT_DIM: u32 = 8192;

/// Iteration budget handed to the iteration kernel.
pub const DEFAULT_TOTAL_ITERATIONS: u32 = 100000000;

/// Histogram bytes per output pixel: four `u32` accumulators (R, G, B, count).
pub const HISTOGRAM_BYTES_PER_PIXEL: u32 = 16;

/// Threads per workgroup of the iteration kernel.
pub const ITERATE_WORKGROUP_SIZE: u32 = 256;

/// Side of the square workgroup of the tone-mapping kernel.
pub const TONEMAP_TILE: u32 = 16;

/// Row pitch alignment of texture-to-buffer copies.
pub const COPY_ROW_ALIGNMENT: usize = 256;

/// Bytes per pixel of the RGBA8 output texture.
pub const OUTPUT_BYTES_PER_PIXEL: usize = 4;

/// An output dimension clamped to the accepted range.
pub open spec fn spec_clamp_dim(x: u32) -> u32 {
    if x < MIN_OUTPUT_DIM {
        MIN_OUTPUT_DIM
    } else if x > MAX_OUTPUT_DIM {
        MAX_OUTPUT_DIM
    } else {
        x
    }
}

/// Clamp an output dimension to the accepted range.
pub fn clamp_output_dim(x: u32) -> (r: u32)
    ensures
        r == spec_clamp_dim(x),
{
    if x < MIN_OUTPUT_DIM {
        MIN_OUTPUT_DIM
    } else if x > MAX_OUTPUT_DIM {
        MAX_OUTPUT_DIM
    } else {
        x
    }
}

/// The renderer's output size in physical pixels, always within
/// `MIN_OUTPUT_DIM..=MAX_OUTPUT_DIM` on both axes.
#[derive(Clone, Copy, Debug, PartialEq, Eq)]
pub struct OutputSize {
    width: u32,
    height: u32,
}

impl OutputSize {
    #[verifier::type_invariant]
    spec fn in_range(self) -> bool {
        &&& MIN_OUTPUT_DIM <= self.width <= MAX_OUTPUT_DIM
        &&& MIN_OUTPUT_DIM <= self.height <= MAX_OUTPUT_DIM
    }

    pub closed spec fn spec_width(self) -> u32 {
        self.width
    }

    pub closed spec fn spec_height(self) -> u32 {
        self.height
    }

    /// A request for `width` x `height` would change this size.
    pub open spec fn spec_needs_resize(self, width: u32, height: u32) -> bool {
        spec_clamp_dim(width) != self.spec_width() || spec_clamp_dim(height) != self.spec_height()
    }

    /// The size a request for `width` x `height` gets.
    pub fn new(width: u32, height: u32) -> (r: Self)
        ensures
            r.spec_width() == spec_clamp_dim(width),
            r.spec_height() == spec_clamp_dim(height),
    {
        OutputSize { width: clamp_output_dim(width), height: clamp_output_dim(height) }
    }

    pub fn width(&self) -> (r: u32)
        ensures
            r == self.spec_width(),
            MIN_OUTPUT_DIM <= r <= MAX_OUTPUT_DIM,
    {
        proof {
            use_type_invariant(self);
        }
        self.width
    }

    pub fn height(&self) -> (r: u32)
        ensures
            r == self.spec_height(),
            MIN_OUTPUT_DIM <= r <= MAX_OUTPUT_DIM,
    {
        proof {
            use_type_invariant(self);
        }
        self.height
    }

    /// Whether a request for `width` x `height` changes the size.
    pub fn needs_resize(&self, width: u32, height: u32) -> (r: bool)
        ensures
            r == self.spec_needs_resize(width, height),
            r == (spec_clamp_dim(width) != self.spec_width() || spec_clamp_dim(height)
                != self.spec_height()),
    {
        clamp_output_dim(width) != self.width || clamp_output_dim(height) != self.height
    }

    /// Take the size requested; returns whether it changed.  Afterwards the
    /// same request needs no resize.
    pub fn resize(&mut self, width: u32, height: u32) -> (changed: bool)
        ensures
            changed == old(self).spec_needs_resize(width, height),
            changed == (spec_clamp_dim(width) != old(self).spec_width() || spec_clamp_dim(height)
                != old(self).spec_height()),
            final(self).spec_width() == spec_clamp_dim(width),
            final(self).spec_height() == spec_clamp_dim(height),
            !final(self).spec_needs_resize(width, height),
    {
        proof {
            use_type_invariant(&*self);
        }
        if !self.needs_resize(width, height) {
            return false;
        }
        self.width = clamp_output_dim(width);
        self.height = clamp_output_dim(height);
        true
    }

    /// Size of the histogram buffer in bytes.
    pub fn histogram_bytes(&self) -> (r: u64)
        ensures
            r == self.spec_width() * self.spec_height() * HISTOGRAM_BYTES_PER_PIXEL,
    {
        proof {
            use_type_invariant(self);
            assert(self.width * self.height <= 8192 * 8192) by (nonlinear_arith)
                requires
                    self.width <= 8192,
                    self.height <= 8192,
            ;
        }
        (self.width * self.height * HISTOGRAM_BYTES_PER_PIXEL) as u64
    }

    /// Workgroups of the tone-mapping kernel along each axis.
    pub fn tonemap_workgroups(&self) -> (r: (u32, u32))
        ensures
            r.0 == (self.spec_width() + TONEMAP_TILE - 1) / TONEMAP_TILE as int,
            r.1 == (self.spec_height() + TONEMAP_TILE - 1) / TONEMAP_TILE as int,
    {
        proof {
            use_type_invariant(self);
        }
        ((self.width + 15) / 16, (self.height + 15) / 16)
    }
}

/// Clamping keeps a dimension inside `MIN_OUTPUT_DIM..=MAX_OUTPUT_DIM`,
/// leaves one already inside unchanged and moves one outside to the nearer
/// bound.
pub proof fn lemma_clamp_dim(x: u32)
    ensures
        MIN_OUTPUT_DIM <= spec_clamp_dim(x) <= MAX_OUTPUT_DIM,
        MIN_OUTPUT_DIM <= x <= MAX_OUTPUT_DIM ==> spec_clamp_dim(x) == x,
        x < MIN_OUTPUT_DIM ==> spec_clamp_dim(x) == MIN_OUTPUT_DIM,
        x > MAX_OUTPUT_DIM ==> spec_clamp_dim(x) == MAX_OUTPUT_DIM,
{
}

/// A request needs a resize exactly when its clamped width or its clamped
/// height differs from the current size; once resized, the same request
/// needs none.
pub proof fn lemma_needs_resize(s: OutputSize, width: u32, height: u32)
    ensures
        s.spec_needs_resize(width, height) == (spec_clamp_dim(width) != s.spec_width()
            || spec_clamp_dim(height) != s.spec_height()),
        spec_clamp_dim(width) == s.spec_width() && spec_clamp_dim(height) == s.spec_height()
            ==> !s.spec_needs_resize(width, height),
{
}

/// Workgroups that cover `num_threads` iteration threads.
pub fn iterate_workgroups(num_threads: u32) -> (r: u32)
    requires
        num_threads <= u32::MAX - (ITERATE_WORKGROUP_SIZE - 1),
    ensures
        r == (num_threads + ITERATE_WORKGROUP_SIZE - 1) / ITERATE_WORKGROUP_SIZE as int,
{
    (num_threads + 255) / 256
}

/// Bytes per row of a read-back buffer: the pixel bytes of a row rounded up
/// to the copy alignment.
pub fn padded_bytes_per_row(width: usize) -> (r: usize)
    requires
        width * OUTPUT_BYTES_PER_PIXEL + COPY_ROW_ALIGNMENT - 1 <= usize::MAX,
    ensures
        r % COPY_ROW_ALIGNMENT == 0,
        width * OUTPUT_BYTES_PER_PIXEL <= r < width * OUTPUT_BYTES_PER_PIXEL + COPY_ROW_ALIGNMENT,
{
    let row = width * 4;
    (row + 255) / 256 * 256
}

/// Attempts the read-back makes at mapping its staging buffer.
pub const MAP_ATTEMPTS: u32 = 5;

/// What the read-back does after an attempt at mapping its staging buffer.
#[derive(Clone, Copy, Debug, PartialEq, Eq, Hash, Structural)]
pub enum ReadbackStep {
    /// The buffer is mapped: read it.
    Read,
    /// Unmap and try again.
    Retry,
    /// Unmap and return a blank image.
    GiveUp,
}

/// The step after attempt number `attempt` (counting from 0): read once the
/// buffer is mapped, otherwise try again until `MAP_ATTEMPTS` attempts have
/// failed.
pub fn readback_step(attempt: u32, mapped: bool) -> (r: ReadbackStep)
    ensures
        mapped ==> r == ReadbackStep::Read,
        !mapped && attempt + 1 < MAP_ATTEMPTS ==> r == ReadbackStep::Retry,
        !mapped && attempt + 1 >= MAP_ATTEMPTS ==> r == ReadbackStep::GiveUp,
{
    if mapped {
        ReadbackStep::Read
    } else if attempt < MAP_ATTEMPTS - 1 {
        ReadbackStep::Retry
    } else {
        ReadbackStep::GiveUp
    }
}

/// The all-zero RGBA8 image of `width` x `height` pixels returned when the
/// read-back fails.
pub fn blank_output(width: usize, height: usize) -> (r: Vec<u8>)
    requires
        width * height * OUTPUT_BYTES_PER_PIXEL <= usize::MAX,
    ensures
        r@.len() == width * height * OUTPUT_BYTES_PER_PIXEL,
        forall|i: int| 0 <= i < r@.len() ==> r@[i] == 0,
{
    proof {
        assert(width * height <= width * height * 4) by (nonlinear_arith);
    }
    let n = width * height * 4;
    let mut out: Vec<u8> = Vec::new();
    while out.len() < n
        invariant
            out@.len() <= n,
            forall|i: int| 0 <= i < out@.len() ==> out@[i] == 0,
        decreases n - out@.len(),
    {
        out.push(0);
    }
    out
}

/// Tightly packed rows taken out of a padded read-back buffer.
pub open spec fn unpadded(mapped: Seq<u8>, row: int, pitch: int, height: int) -> Seq<u8> {
    Seq::new((row * height) as nat, |i: int| mapped[(i / row) * pitch + i % row])
}

/// Byte `k` of row `y` of the packed rows is byte `k` of row `y` of the
/// padded buffer.
pub proof fn lemma_unpadded_at(mapped: Seq<u8>, row: int, pitch: int, height: int, y: int, k: int)
    requires
        0 < row,
        0 <= y < height,
        0 <= k < row,
    ensures
        0 <= y * row + k < row * height,
        unpadded(mapped, row, pitch, height)[y * row + k] == mapped[y * pitch + k],
{
    lemma_fundamental_div_mod_converse(y * row + k, row, y, k);
    assert(y * row + k < row * height) by (nonlinear_arith)
        requires
            0 <= y < height,
            0 <= k < row,
    ;
    assert(0 <= y * row) by (nonlinear_arith)
        requires
            0 <= y,
            0 < row,
    ;
}

/// Drop the row padding of a read-back buffer holding `height` rows of
/// `width` RGBA8 pixels at a pitch of `pitch` bytes.
pub fn unpad_rows(mapped: &[u8], width: usize, height: usize, pitch: usize) -> (r: Vec<u8>)
    requires
        width * OUTPUT_BYTES_PER_PIXEL <= pitch,
        pitch * height <= mapped@.len(),
    ensures
        r@ == unpadded(mapped@, width * OUTPUT_BYTES_PER_PIXEL as int, pitch as int, height as int),
{
    if width == 0 {
        assert(unpadded(mapped@, 0, pitch as int, height as int) =~= Seq::<u8>::empty());
        return Vec::new();
    }
    let n = mapped.len();
    let row = width * 4;
    let ghost u = unpadded(mapped@, row as int, pitch as int, height as int);
    let mut out: Vec<u8> = Vec::new();
    let mut y: usize = 0;
    let mut start: usize = 0;
    while y < height
        invariant
            n == mapped@.len(),
            0 < row,
            row == width * 4,
            row <= pitch,
            pitch * height <= n,
            y <= height,
            start == y * pitch,
            u == unpadded(mapped@, row as int, pitch as int, height as int),
            out@.len() == y * row,
            forall|i: int| 0 <= i < out@.len() ==> #[trigger] out@[i] == u[i],
        decreases height - y,
    {
        proof {
            assert((y + 1) * pitch <= pitch * height) by (nonlinear_arith)
                requires
                    y < height,
            ;
            assert((y + 1) * pitch == y * pitch + pitch) by (nonlinear_arith);
            assert((y + 1) * row == y * row + row) by (nonlinear_arith);
        }
        let mut k: usize = 0;
        while k < row
            invariant
                n == mapped@.len(),
                0 < row,
                row <= pitch,
                start == y * pitch,
                start + pitch <= n,
                y < height,
                k <= row,
                u == unpadded(mapped@, row as int, pitch as int, height as int),
                out@.len() == y * row + k,
                forall|i: int| 0 <= i < out@.len() ==> #[trigger] out@[i] == u[i],
            decreases row - k,
        {
            proof {
                lemma_unpadded_at(mapped@, row as int, pitch as int, height as int, y as int, k as int);
            }
            out.push(mapped[start + k]);
            k += 1;
        }
        start = start + pitch;
        y += 1;
    }
    proof {
        assert(out@.len() == row * height) by (nonlinear_arith)
            requires
                out@.len() == y * row,
                y == height,
        ;
        assert(out@ =~= u);
    }
    out
}

// ---------------------------------------------------------------------------
// Variation table
// ---------------------------------------------------------------------------

/// One entry of the flat variation table: a variation identifier and its
/// weight.
#[derive(Clone, Copy, Debug, PartialEq)]
pub struct VariSlot<W> {
    pub var_id: u32,
    pub weight: W,
}

/// Where a branch's variations sit in the flat table.
#[derive(Clone, Copy, Debug, PartialEq, Eq, Structural)]
pub struct VarSpan {
    pub count: u32,
    pub offset: u32,
}

/// The table entry of a variation term.
pub open spec fn slot_of<W>(e: VariEntry<W>) -> VariSlot<W> {
    VariSlot { var_id: e.variation.spec_id() as u32, weight: e.weight }
}

/// All branches' variation terms, branch after branch.
pub open spec fn flat_slots<W>(branches: Seq<Vec<VariEntry<W>>>) -> Seq<VariSlot<W>>
    decreases branches.len(),
{
    if branches.len() == 0 {
        Seq::empty()
    } else {
        flat_slots(branches.drop_last()) + branches.last()@.map_values(|e: VariEntry<W>| slot_of(e))
    }
}

/// Flatten the branches' variation terms into one table, and record for
/// each branch how many terms it has and where they start (both as the
/// `u32` the kernel reads).
pub fn pack_variation_table<W: Copy>(branches: &Vec<Vec<VariEntry<W>>>) -> (r: (
    Vec<VariSlot<W>>,
    Vec<VarSpan>,
))
    ensures
        r.0@ == flat_slots(branches@),
        r.1@.len() == branches@.len(),
        forall|i: int|
            0 <= i < branches@.len() ==> (#[trigger] r.1@[i]).count == branches@[i]@.len() as u32
                && r.1@[i].offset == flat_slots(branches@.take(i)).len() as u32,
{
    let mut slots: Vec<VariSlot<W>> = Vec::new();
    let mut spans: Vec<VarSpan> = Vec::new();
    let mut i: usize = 0;
    proof {
        assert(branches@.take(0) =~= Seq::<Vec<VariEntry<W>>>::empty());
    }
    while i < branches.len()
        invariant
            i <= branches@.len(),
            slots@ == flat_slots(branches@.take(i as int)),
            spans@.len() == i,
            forall|b: int|
                0 <= b < i ==> (#[trigger] spans@[b]).count == branches@[b]@.len() as u32
                    && spans@[b].offset == flat_slots(branches@.take(b)).len() as u32,
        decreases branches@.len() - i,
    {
        let vars = &branches[i];
        let ghost before = slots@;
        spans.push(VarSpan { count: vars.len() as u32, offset: slots.len() as u32 });
        let mut j: usize = 0;
        while j < vars.len()
            invariant
                j <= vars@.len(),
                slots@ == before + vars@.take(j as int).map_values(|e: VariEntry<W>| slot_of(e)),
            decreases vars@.len() - j,
        {
            let e = vars[j];
            slots.push(VariSlot { var_id: e.variation.id() as u32, weight: e.weight });
            proof {
                assert(vars@.take(j + 1).map_values(|e: VariEntry<W>| slot_of(e)) =~= vars@.take(
                    j as int,
                ).map_values(|e: VariEntry<W>| slot_of(e)).push(slot_of(e)));
            }
            j += 1;
        }
        proof {
            assert(vars@.take(vars@.len() as int) =~= vars@);
            assert(branches@.take(i + 1).drop_last() =~= branches@.take(i as int));
            assert(branches@.take(i + 1).last() == *vars);
            assert(slots@ =~= flat_slots(branches@.take(i + 1)));
        }
        i += 1;
    }
    proof {
        assert(branches@.take(branches@.len() as int) =~= branches@);
    }
    (slots, spans)
}

proof fn lemma_flat_slots_step<W>(branches: Seq<Vec<VariEntry<W>>>, i: int)
    requires
        0 <= i < branches.len(),
    ensures
        flat_slots(branches.take(i + 1)) == flat_slots(branches.take(i)) + branches[i]@.map_values(
            |e: VariEntry<W>| slot_of(e),
        ),
{
    assert(branches.take(i + 1).drop_last() =~= branches.take(i));
}

proof fn lemma_flat_slots_prefix<W>(branches: Seq<Vec<VariEntry<W>>>, k: int)
    requires
        0 <= k <= branches.len(),
    ensures
        flat_slots(branches.take(k)).len() <= flat_slots(branches).len(),
        flat_slots(branches).subrange(0, flat_slots(branches.take(k)).len() as int) == flat_slots(
            branches.take(k),
        ),
    decreases branches.len() - k,
{
    if k == branches.len() {
        assert(branches.take(k) =~= branches);
        assert(flat_slots(branches).subrange(0, flat_slots(branches).len() as int) =~= flat_slots(
            branches,
        ));
    } else {
        lemma_flat_slots_prefix(branches, k + 1);
        lemma_flat_slots_step(branches, k);
        let a = flat_slots(branches.take(k));
        let b = flat_slots(branches.take(k + 1));
        assert(b.subrange(0, a.len() as int) =~= a);
        assert(flat_slots(branches).subrange(0, a.len() as int) =~= flat_slots(branches).subrange(
            0,
            b.len() as int,
        ).subrange(0, a.len() as int));
    }
}

/// The table is laid out branch by branch: branch `i` owns the entries from
/// its offset on, one per term and in the branch's order, and the next
/// branch starts right after them.
pub proof fn lemma_variation_table_layout<W>(branches: Seq<Vec<VariEntry<W>>>, i: int, j: int)
    requires
        0 <= i < branches.len(),
        0 <= j < branches[i]@.len(),
    ensures
        flat_slots(branches.take(i + 1)).len() == flat_slots(branches.take(i)).len()
            + branches[i]@.len(),
        flat_slots(branches.take(i)).len() + j < flat_slots(branches).len(),
        flat_slots(branches)[flat_slots(branches.take(i)).len() + j] == slot_of(branches[i]@[j]),
{
    lemma_flat_slots_step(branches, i);
    lemma_flat_slots_prefix(branches, i + 1);
    let a = flat_slots(branches.take(i));
    let b = flat_slots(branches.take(i + 1));
    assert(b[a.len() + j] == slot_of(branches[i]@[j]));
    assert(flat_slots(branches).subrange(0, b.len() as int)[a.len() + j] == flat_slots(branches)[a.len() + j]);
}

} // verus!
