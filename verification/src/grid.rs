//! Dense boolean occupancy map over the discretized canvas.
//!
//! Cell `(i, j)` is stored at index `i * height + j` of a flat vector. A cell
//! is marked once some committed label's bounds cover it; marks are only ever
//! added within a run, and a rebuild clears everything.

use vstd::prelude::*;

verus! {

pub struct OccupancyGrid {
    cells: Vec<bool>,
    width: usize,
    height: usize,
}

impl OccupancyGrid {
    /// The cell count matches the dimensions and the dimensions are small
    /// enough that every flat index fits the machine word.
    pub closed spec fn wf(self) -> bool {
        &&& self.cells@.len() == self.width * self.height
        &&& self.width * self.height <= usize::MAX
        &&& 1 <= self.width <= 16_251
        &&& 1 <= self.height <= 16_251
    }

    pub closed spec fn spec_width(self) -> int {
        self.width as int
    }

    pub closed spec fn spec_height(self) -> int {
        self.height as int
    }

    /// Whether cell `(i, j)` is marked occupied.
    pub closed spec fn cell(self, i: int, j: int) -> bool {
        self.cells@[i * self.height + j]
    }

    pub open spec fn all_free(self) -> bool {
        forall|i: int, j: int|
            0 <= i < self.spec_width() && 0 <= j < self.spec_height() ==> !#[trigger] self.cell(
                i,
                j,
            )
    }

    /// The flat index of a cell in range is in range.
    proof fn lemma_flat_index(self, i: int, j: int)
        requires
            self.wf(),
            0 <= i < self.spec_width(),
            0 <= j < self.spec_height(),
        ensures
            0 <= i * self.spec_height() + j < self.cells@.len(),
    {
        let h = self.height as int;
        assert(0 <= i * h && i * h + j < self.width * h) by (nonlinear_arith)
            requires
                0 <= i < self.width as int,
                0 <= j < h,
                0 < h,
        ;
    }

    /// Distinct cells have distinct flat indices.
    proof fn lemma_flat_index_injective(self, i1: int, j1: int, i2: int, j2: int)
        requires
            self.wf(),
            0 <= i1 < self.spec_width(),
            0 <= j1 < self.spec_height(),
            0 <= i2 < self.spec_width(),
            0 <= j2 < self.spec_height(),
            i1 * self.spec_height() + j1 == i2 * self.spec_height() + j2,
        ensures
            i1 == i2 && j1 == j2,
    {
        let h = self.height as int;
        assert(i1 * h + j1 == i2 * h + j2 && 0 <= j1 < h && 0 <= j2 < h ==> i1 == i2 && j1 == j2)
            by (nonlinear_arith)
        ;
    }

    /// A fresh, fully free grid of the given dimensions.
    pub fn new(width: usize, height: usize) -> (g: OccupancyGrid)
        requires
            1 <= width <= 16_251,
            1 <= height <= 16_251,
        ensures
            g.wf(),
            g.spec_width() == width,
            g.spec_height() == height,
            g.all_free(),
    {
        proof {
            assert(width * height <= 16_251 * 16_251 && width * height <= usize::MAX) by (nonlinear_arith)
                requires
                    1 <= width <= 16_251,
                    1 <= height <= 16_251,
            ;
        }
        let total: usize = width * height;
        let mut cells: Vec<bool> = Vec::new();
        let mut k: usize = 0;
        while k < total
            invariant
                cells@.len() == k,
                k <= total,
                forall|n: int| 0 <= n < k ==> !#[trigger] cells@[n],
            decreases total - k,
        {
            cells.push(false);
            k = k + 1;
        }
        let g = OccupancyGrid { cells, width, height };
        proof {
            assert forall|i: int, j: int|
                0 <= i < g.spec_width() && 0 <= j < g.spec_height() implies !#[trigger] g.cell(
                i,
                j,
            ) by {
                g.lemma_flat_index(i, j);
            }
        }
        g
    }

    /// Whether any cell in the inclusive index rectangle is occupied.
    pub fn range_occupied(&self, i0: usize, i1: usize, j0: usize, j1: usize) -> (b: bool)
        requires
            self.wf(),
            i0 <= i1 < self.spec_width(),
            j0 <= j1 < self.spec_height(),
        ensures
            b == exists|i: int, j: int|
                i0 <= i <= i1 && j0 <= j <= j1 && #[trigger] self.cell(i, j),
    {
        let mut i: usize = i0;
        while i <= i1
            invariant
                self.wf(),
                i0 <= i <= i1 + 1,
                i1 < self.spec_width(),
                j0 <= j1 < self.spec_height(),
                forall|a: int, b: int|
                    i0 <= a < i && j0 <= b <= j1 ==> !#[trigger] self.cell(a, b),
            decreases i1 + 1 - i,
        {
            let mut j: usize = j0;
            while j <= j1
                invariant
                    self.wf(),
                    i0 <= i <= i1 < self.spec_width(),
                    j0 <= j <= j1 + 1,
                    j1 < self.spec_height(),
                    forall|a: int, b: int|
                        i0 <= a < i && j0 <= b <= j1 ==> !#[trigger] self.cell(a, b),
                    forall|b: int| j0 <= b < j ==> !#[trigger] self.cell(i as int, b),
                decreases j1 + 1 - j,
            {
                proof {
                    self.lemma_flat_index(i as int, j as int);
                }
                if self.cells[i * self.height + j] {
                    proof {
                        assert(self.cell(i as int, j as int));
                    }
                    return true;
                }
                j = j + 1;
            }
            i = i + 1;
        }
        false
    }

    /// Marks every cell in the inclusive index rectangle occupied. No cell is
    /// ever unmarked.
    pub fn mark_range(&mut self, i0: usize, i1: usize, j0: usize, j1: usize)
        requires
            old(self).wf(),
            i0 <= i1 < old(self).spec_width(),
            j0 <= j1 < old(self).spec_height(),
        ensures
            final(self).wf(),
            final(self).spec_width() == old(self).spec_width(),
            final(self).spec_height() == old(self).spec_height(),
            forall|i: int, j: int|
                0 <= i < old(self).spec_width() && 0 <= j < old(self).spec_height()
                    ==> #[trigger] final(self).cell(i, j) == (old(self).cell(i, j) || (i0 <= i <= i1
                    && j0 <= j <= j1)),
    {
        let ghost orig = *self;
        let mut i: usize = i0;
        while i <= i1
            invariant
                self.wf(),
                self.width == orig.width,
                self.height == orig.height,
                orig.wf(),
                i0 <= i <= i1 + 1,
                i1 < self.spec_width(),
                j0 <= j1 < self.spec_height(),
                forall|a: int, b: int|
                    0 <= a < self.spec_width() && 0 <= b < self.spec_height()
                        ==> #[trigger] self.cell(a, b) == (orig.cell(a, b) || (i0 <= a < i && j0
                        <= b <= j1)),
            decreases i1 + 1 - i,
        {
            let mut j: usize = j0;
            while j <= j1
                invariant
                    self.wf(),
                    self.width == orig.width,
                    self.height == orig.height,
                    orig.wf(),
                    i0 <= i <= i1 < self.spec_width(),
                    j0 <= j <= j1 + 1,
                    j1 < self.spec_height(),
                    forall|a: int, b: int|
                        0 <= a < self.spec_width() && 0 <= b < self.spec_height()
                            ==> #[trigger] self.cell(a, b) == (orig.cell(a, b) || (i0 <= a < i
                            && j0 <= b <= j1) || (a == i && j0 <= b < j)),
                decreases j1 + 1 - j,
            {
                proof {
                    self.lemma_flat_index(i as int, j as int);
                }
                let ghost before = *self;
                let idx: usize = i * self.height + j;
                self.cells[idx] = true;
                proof {
                    assert(self.cells@ == before.cells@.update(idx as int, true));
                    assert forall|a: int, b: int|
                        0 <= a < self.spec_width() && 0 <= b < self.spec_height()
                            implies #[trigger] self.cell(a, b) == (orig.cell(a, b) || (i0 <= a < i
                        && j0 <= b <= j1) || (a == i && j0 <= b <= j)) by {
                        before.lemma_flat_index(a, b);
                        assert(before.cell(a, b) == (orig.cell(a, b) || (i0 <= a < i && j0 <= b
                            <= j1) || (a == i && j0 <= b < j)));
                        if a * before.spec_height() + b == idx as int {
                            before.lemma_flat_index_injective(a, b, i as int, j as int);
                            assert(self.cell(a, b));
                        } else {
                            assert(self.cell(a, b) == before.cell(a, b));
                        }
                    }
                }
                j = j + 1;
            }
            i = i + 1;
        }
    }
}

} // verus!
