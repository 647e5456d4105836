//! The heat field: a 2D grid of saturating 8-bit intensities with one
//! invariant update rule (ignite the bottom row, then diffuse upward).

use vstd::prelude::*;
use crate::rng::{Rng, rng_after, xorshift_spec};

verus! {

/// Intensity written to an ignited cell.
pub const IGNITION_INTENSITY: u8 = 255;

/// A row-major grid of `width * height` logical cells, with `width + 1`
/// zeroed padding cells appended so the diffusion kernel's forward reads
/// (`i + 1`, `i + width`, `i + width + 1`) are always in bounds.
pub struct HeatField {
    pub cells: Vec<u8>,
    pub width: usize,
    pub height: usize,
}

impl HeatField {
    /// Number of logical cells.
    pub open spec fn size(self) -> int {
        self.width * self.height
    }

    /// Well-formedness: positive dimensions, exact buffer length, and
    /// all padding cells zero.
    pub open spec fn wf(self) -> bool {
        &&& self.width >= 1
        &&& self.height >= 1
        &&& self.cells@.len() == self.size() + self.width + 1
        &&& forall|i: int| self.size() <= i < self.cells@.len() ==> self.cells@[i] == 0
    }

    /// Allocate an all-zero field, or `None` when a dimension is zero or
    /// the padded buffer length does not fit in `usize`.
    pub fn new(width: usize, height: usize) -> (r: Option<HeatField>)
        ensures
            match r {
                Some(f) => {
                    &&& f.wf()
                    &&& f.width == width
                    &&& f.height == height
                    &&& width * height + width + 1 <= usize::MAX
                    &&& forall|i: int| 0 <= i < f.cells@.len() ==> f.cells@[i] == 0
                },
                None => width == 0 || height == 0 || width * height + width + 1 > usize::MAX,
            },
    {
        if width == 0 || height == 0 {
            return None;
        }
        let size = match width.checked_mul(height) {
            Some(s) => s,
            None => {
                return None;
            },
        };
        let len = match size.checked_add(width) {
            Some(l) => match l.checked_add(1) {
                Some(l2) => l2,
                None => {
                    return None;
                },
            },
            None => {
                return None;
            },
        };
        let mut cells: Vec<u8> = Vec::new();
        while cells.len() < len
            invariant
                cells@.len() <= len,
                forall|i: int| 0 <= i < cells@.len() ==> cells@[i] == 0,
            decreases len - cells@.len(),
        {
            cells.push(0);
        }
        Some(HeatField { cells, width, height })
    }
}

/// How many cells one ignition pass sets: `max(width / 9, 1)`.
pub open spec fn ignite_count(w: int) -> int {
    if w / 9 >= 1 {
        w / 9
    } else {
        1
    }
}

/// The buffer index the `n`-th ignition draw selects (1-based draw count):
/// a pseudo-random column of the bottom logical row.
pub open spec fn pick_index(s: u32, w: int, h: int, n: nat) -> int {
    (rng_after(s, n) as int) % w + (w * h - w)
}

/// The first `n` ignition targets drawn from generator state `s`.
pub open spec fn ignite_picks(s: u32, w: int, h: int, n: nat) -> Seq<int>
    decreases n,
{
    if n == 0 {
        Seq::empty()
    } else {
        ignite_picks(s, w, h, (n - 1) as nat).push(pick_index(s, w, h, n))
    }
}

/// `cells` with every index in `picks` set to the ignition intensity,
/// applied left to right.
pub open spec fn apply_ignitions(c: Seq<u8>, picks: Seq<int>) -> Seq<u8>
    decreases picks.len(),
{
    if picks.len() == 0 {
        c
    } else {
        apply_ignitions(c, picks.drop_last()).update(picks.last(), IGNITION_INTENSITY)
    }
}

/// The average of cell `i` and its three forward neighbors, truncated.
pub open spec fn avg4(c: Seq<u8>, i: int, w: int) -> u8 {
    (((c[i] as int) + (c[i + 1] as int) + (c[i + w] as int) + (c[i + w + 1] as int)) / 4) as u8
}

/// One in-place diffusion pass: every logical cell is replaced by the
/// forward average; padding is untouched. The kernel reads only indices at
/// or past the cell being written, so a single left-to-right pass reads
/// pre-pass values throughout.
pub open spec fn diffused(c: Seq<u8>, w: int, size: int) -> Seq<u8> {
    Seq::new(c.len(), |i: int| if i < size { avg4(c, i, w) } else { c[i] })
}

impl HeatField {
    /// Set `max(width / 9, 1)` pseudo-randomly chosen bottom-row cells to
    /// the ignition intensity. This is the sole heat source; draws may
    /// repeat a cell.
    pub fn ignite(&mut self, rng: &mut Rng)
        requires
            old(self).wf(),
        ensures
            final(self).wf(),
            final(self).width == old(self).width,
            final(self).height == old(self).height,
            final(self).cells@ == apply_ignitions(
                old(self).cells@,
                ignite_picks(
                    old(rng).0,
                    old(self).width as int,
                    old(self).height as int,
                    ignite_count(old(self).width as int) as nat,
                ),
            ),
            final(rng).0 == rng_after(old(rng).0, ignite_count(old(self).width as int) as nat),
    {
        let w = self.width;
        let len = self.cells.len();
        let size = len - w - 1;
        proof {
            assert(self.width as int * self.height as int >= self.width as int) by (nonlinear_arith)
                requires
                    self.height >= 1,
                    self.width >= 0,
            ;
        }
        let bottom = size - w;
        let k = if w / 9 >= 1 { w / 9 } else { 1 };
        let ghost s0 = rng.0;
        let ghost c0 = self.cells@;
        let ghost h = self.height as int;
        let mut j: usize = 0;
        while j < k
            invariant
                self.width == old(self).width,
                self.height == old(self).height,
                w == self.width,
                h == self.height as int,
                len == self.cells@.len(),
                len == size + w + 1,
                size == w * h,
                w >= 1,
                bottom == size - w,
                k == ignite_count(w as int),
                j <= k,
                c0 == old(self).cells@,
                s0 == old(rng).0,
                self.cells@ == apply_ignitions(c0, ignite_picks(s0, w as int, h, j as nat)),
                rng.0 == rng_after(s0, j as nat),
                forall|i: int| size <= i < len ==> self.cells@[i] == 0,
            decreases k - j,
        {
            let r = rng.next();
            proof {
                assert(rng_after(s0, (j + 1) as nat) == xorshift_spec(rng_after(s0, j as nat)));
            }
            let idx = (r as usize % w) + bottom;
            let ghost picks_j = ignite_picks(s0, w as int, h, j as nat);
            self.cells[idx] = IGNITION_INTENSITY;
            proof {
                assert(idx as int == pick_index(s0, w as int, h, (j + 1) as nat));
                assert(picks_j.push(idx as int).drop_last() =~= picks_j);
                assert(ignite_picks(s0, w as int, h, (j + 1) as nat)
                    == picks_j.push(pick_index(s0, w as int, h, (j + 1) as nat)));
                assert(self.cells@ == apply_ignitions(c0, ignite_picks(s0, w as int, h, (j + 1) as nat)));
            }
            j += 1;
        }
    }

    /// Replace every logical cell with the unweighted average of itself
    /// and its three forward neighbors (right, below, below-right).
    pub fn diffuse(&mut self)
        requires
            old(self).wf(),
        ensures
            final(self).wf(),
            final(self).width == old(self).width,
            final(self).height == old(self).height,
            final(self).cells@ == diffused(old(self).cells@, old(self).width as int, old(self).size()),
    {
        let w = self.width;
        let len = self.cells.len();
        let size = len - w - 1;
        let ghost c0 = self.cells@;
        let mut i: usize = 0;
        while i < size
            invariant
                self.width == old(self).width,
                self.height == old(self).height,
                w == self.width,
                len == self.cells@.len(),
                size == old(self).size(),
                len == size + w + 1,
                c0 == old(self).cells@,
                c0.len() == len,
                i <= size,
                forall|j: int| 0 <= j < i ==> self.cells@[j] == avg4(c0, j, w as int),
                forall|j: int| i <= j < len ==> self.cells@[j] == c0[j],
            decreases size - i,
        {
            let total: u32 = self.cells[i] as u32 + self.cells[i + 1] as u32
                + self.cells[i + w] as u32 + self.cells[i + w + 1] as u32;
            self.cells[i] = (total / 4) as u8;
            i += 1;
        }
        proof {
            assert(self.cells@ =~= diffused(c0, w as int, size as int));
        }
    }
}

/// Sum of intensities over the index range `[lo, hi)`.
pub open spec fn heat_sum(c: Seq<u8>, lo: int, hi: int) -> int
    decreases hi - lo,
{
    if lo >= hi {
        0
    } else {
        heat_sum(c, lo, hi - 1) + c[hi - 1]
    }
}

/// Sum of intensities over the whole buffer.
pub open spec fn total_heat(c: Seq<u8>) -> int {
    heat_sum(c, 0, c.len() as int)
}

proof fn lemma_heat_sum_nonneg(c: Seq<u8>, lo: int, hi: int)
    ensures
        heat_sum(c, lo, hi) >= 0,
    decreases hi - lo,
{
    if lo < hi {
        lemma_heat_sum_nonneg(c, lo, hi - 1);
    }
}

proof fn lemma_heat_sum_split(c: Seq<u8>, lo: int, mid: int, hi: int)
    requires
        lo <= mid <= hi,
    ensures
        heat_sum(c, lo, hi) == heat_sum(c, lo, mid) + heat_sum(c, mid, hi),
    decreases hi - mid,
{
    if mid < hi {
        lemma_heat_sum_split(c, lo, mid, hi - 1);
    }
}

proof fn lemma_heat_sum_zero(c: Seq<u8>, lo: int, hi: int)
    requires
        forall|i: int| lo <= i < hi ==> c[i] == 0,
    ensures
        heat_sum(c, lo, hi) == 0,
    decreases hi - lo,
{
    if lo < hi {
        lemma_heat_sum_zero(c, lo, hi - 1);
    }
}

proof fn lemma_heat_sum_range_le_total(c: Seq<u8>, lo: int, hi: int)
    requires
        0 <= lo <= hi <= c.len(),
    ensures
        heat_sum(c, lo, hi) <= total_heat(c),
{
    lemma_heat_sum_split(c, 0, lo, c.len() as int);
    lemma_heat_sum_split(c, lo, hi, c.len() as int);
    lemma_heat_sum_nonneg(c, 0, lo);
    lemma_heat_sum_nonneg(c, hi, c.len() as int);
}

proof fn lemma_diffused_sum_bound(c: Seq<u8>, w: int, size: int, n: int)
    requires
        1 <= w,
        0 <= size,
        c.len() == size + w + 1,
        0 <= n <= size,
    ensures
        4 * heat_sum(diffused(c, w, size), 0, n) <= heat_sum(c, 0, n) + heat_sum(c, 1, n + 1)
            + heat_sum(c, w, n + w) + heat_sum(c, w + 1, n + w + 1),
    decreases n,
{
    if n > 0 {
        lemma_diffused_sum_bound(c, w, size, n - 1);
        let d = diffused(c, w, size);
        let s = (c[n - 1] as int) + (c[n] as int) + (c[n - 1 + w] as int) + (c[n + w] as int);
        assert(d[n - 1] == avg4(c, n - 1, w));
        assert(4 * (s / 4) <= s);
        assert(heat_sum(c, 1, n + 1) == heat_sum(c, 1, n) + c[n]);
        assert(heat_sum(c, w, n + w) == heat_sum(c, w, n - 1 + w) + c[n - 1 + w]);
        assert(heat_sum(c, w + 1, n + w + 1) == heat_sum(c, w + 1, n + w) + c[n + w]);
    }
}

/// Diffusion alone never increases the total heat of the grid: with
/// ignition disabled, the summed intensity is non-increasing step over
/// step. `c` is a full buffer (logical cells plus zeroed padding).
pub proof fn lemma_diffuse_non_expansive(c: Seq<u8>, w: int, size: int)
    requires
        1 <= w,
        0 <= size,
        c.len() == size + w + 1,
        forall|i: int| size <= i < c.len() ==> c[i] == 0,
    ensures
        total_heat(diffused(c, w, size)) <= total_heat(c),
{
    let d = diffused(c, w, size);
    let len = c.len() as int;
    lemma_diffused_sum_bound(c, w, size, size);
    lemma_heat_sum_range_le_total(c, 0, size);
    lemma_heat_sum_range_le_total(c, 1, size + 1);
    lemma_heat_sum_range_le_total(c, w, size + w);
    lemma_heat_sum_range_le_total(c, w + 1, size + w + 1);
    lemma_heat_sum_split(d, 0, size, len);
    assert(forall|i: int| size <= i < len ==> d[i] == 0);
    lemma_heat_sum_zero(d, size, len);
}

proof fn lemma_picks_in_bottom_row(s: u32, w: int, h: int, n: nat)
    requires
        w >= 1,
        h >= 1,
    ensures
        ignite_picks(s, w, h, n).len() == n,
        forall|j: int|
            0 <= j < n ==> w * (h - 1) <= #[trigger] ignite_picks(s, w, h, n)[j] < w * h,
    decreases n,
{
    if n > 0 {
        lemma_picks_in_bottom_row(s, w, h, (n - 1) as nat);
        assert(w * (h - 1) == w * h - w) by (nonlinear_arith);
        let r = rng_after(s, n) as int;
        assert(0 <= r % w < w);
    }
}

proof fn lemma_apply_ignitions_props(c: Seq<u8>, picks: Seq<int>)
    requires
        forall|j: int| 0 <= j < picks.len() ==> 0 <= #[trigger] picks[j] < c.len(),
    ensures
        apply_ignitions(c, picks).len() == c.len(),
        forall|i: int|
            0 <= i < c.len() && !picks.contains(i) ==> apply_ignitions(c, picks)[i] == c[i],
        forall|j: int|
            0 <= j < picks.len() ==> apply_ignitions(c, picks)[#[trigger] picks[j]]
                == IGNITION_INTENSITY,
    decreases picks.len(),
{
    if picks.len() > 0 {
        let p = picks;
        let q = p.drop_last();
        lemma_apply_ignitions_props(c, q);
        let res = apply_ignitions(c, p);
        assert(p[p.len() - 1] == p.last());
        assert forall|i: int|
            0 <= i < c.len() && !p.contains(i) implies res[i] == c[i] by {
            if q.contains(i) {
                let j = choose|j: int| 0 <= j < q.len() && q[j] == i;
                assert(p[j] == i);
            }
            assert(!q.contains(i));
            assert(i != p.last());
        }
        assert forall|j: int|
            0 <= j < p.len() implies res[#[trigger] p[j]] == IGNITION_INTENSITY by {
            if j < p.len() - 1 {
                assert(q[j] == p[j]);
                assert(apply_ignitions(c, q)[q[j]] == IGNITION_INTENSITY);
            }
        }
    }
}

/// Ignition draws exactly `max(width / 9, 1)` target cells, every one of
/// them in the bottom logical row; each targeted cell ends at the full
/// ignition intensity and every other cell is left unchanged. Draws may
/// coincide, so the number of distinct ignited cells can be smaller.
pub proof fn lemma_ignition_targets_bottom_row(c: Seq<u8>, s: u32, w: int, h: int)
    requires
        w >= 1,
        h >= 1,
        c.len() == w * h + w + 1,
    ensures
        ({
            let picks = ignite_picks(s, w, h, ignite_count(w) as nat);
            let ignited = apply_ignitions(c, picks);
            &&& picks.len() == ignite_count(w)
            &&& forall|j: int|
                0 <= j < picks.len() ==> w * (h - 1) <= #[trigger] picks[j] < w * h
            &&& ignited.len() == c.len()
            &&& forall|i: int| 0 <= i < c.len() && !picks.contains(i) ==> ignited[i] == c[i]
            &&& forall|j: int|
                0 <= j < picks.len() ==> ignited[#[trigger] picks[j]] == IGNITION_INTENSITY
        }),
{
    let picks = ignite_picks(s, w, h, ignite_count(w) as nat);
    lemma_picks_in_bottom_row(s, w, h, ignite_count(w) as nat);
    assert(w * (h - 1) >= 0) by (nonlinear_arith)
        requires
            w >= 1,
            h >= 1,
    ;
    assert(w * h <= c.len());
    lemma_apply_ignitions_props(c, picks);
}

/// Every intensity is a saturating 8-bit value, so each cell of any heat
/// field lies in `[0, 255]`; together with the update rule's contracts this
/// bound is preserved by any number of physics steps.
pub proof fn lemma_intensity_bounded(f: &HeatField)
    ensures
        forall|i: int| 0 <= i < f.cells@.len() ==> 0 <= #[trigger] f.cells@[i] <= 255,
{
}

/// The heat field after one full physics step (ignition then diffusion).
pub open spec fn step_cells(c: Seq<u8>, w: int, h: int, s: u32) -> Seq<u8> {
    diffused(apply_ignitions(c, ignite_picks(s, w, h, ignite_count(w) as nat)), w, w * h)
}

/// The generator state after one full physics step.
pub open spec fn step_rng(s: u32, w: int) -> u32 {
    rng_after(s, ignite_count(w) as nat)
}

/// Compare the measured terminal size against the field's dimensions and,
/// when they differ and the new size is representable, reallocate the field
/// at the new dimensions with all heat discarded. Returns whether the field
/// was replaced; on an unrepresentable or degenerate size it is kept as is.
pub fn apply_resize(field: &mut HeatField, width: usize, height: usize) -> (resized: bool)
    requires
        old(field).wf(),
    ensures
        final(field).wf(),
        resized == ((width != old(field).width || height != old(field).height) && width >= 1
            && height >= 1 && width * height + width + 1 <= usize::MAX),
        resized ==> {
            &&& final(field).width == width
            &&& final(field).height == height
            &&& forall|i: int| 0 <= i < final(field).cells@.len() ==> final(field).cells@[i] == 0
        },
        !resized ==> {
            &&& final(field).width == old(field).width
            &&& final(field).height == old(field).height
            &&& final(field).cells@ == old(field).cells@
        },
{
    if width == field.width && height == field.height {
        return false;
    }
    match HeatField::new(width, height) {
        Some(fresh) => {
            *field = fresh;
            true
        },
        None => false,
    }
}

/// One physics step: ignite the bottom row, then diffuse the whole grid.
pub fn simulate_step(field: &mut HeatField, rng: &mut Rng)
    requires
        old(field).wf(),
    ensures
        final(field).wf(),
        final(field).width == old(field).width,
        final(field).height == old(field).height,
        final(field).cells@ == step_cells(
            old(field).cells@,
            old(field).width as int,
            old(field).height as int,
            old(rng).0,
        ),
        final(rng).0 == step_rng(old(rng).0, old(field).width as int),
{
    field.ignite(rng);
    field.diffuse();
}

} // verus!
