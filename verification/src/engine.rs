//! The word-cloud engine: configuration, per-label size and rotation, the
//! spiral search through the collision test, and the assembled result.

use vstd::prelude::*;
use vstd::string::StrSliceExecFns;
use crate::geom;
use crate::grid::OccupancyGrid;
use crate::rng::RandomSource;
use crate::sizing;
use crate::spiral;
use crate::spiral::SpiralKind;
use crate::spiral::SpiralPath;
use crate::units;

verus! {

/// One input label: its text, its caller-defined importance, an optional
/// pass-through color and an optional explicit rotation in milliradians.
#[derive(Clone, Debug, PartialEq)]
pub struct WordItem {
    pub text: String,
    pub weight: i64,
    pub color: Option<String>,
    pub rotate: Option<i64>,
}

/// One placed label: center position in milli-pixels, rotation in
/// milliradians, the pass-through color and the resolved size in
/// milli-pixels.
#[derive(Clone, Debug, PartialEq)]
pub struct WordPosition {
    pub text: String,
    pub weight: i64,
    pub x: i64,
    pub y: i64,
    pub rotate: i64,
    pub color: Option<String>,
    pub size: Option<i64>,
}

/// Engine configuration. Canvas dimensions in pixels; sizes in milli-pixels;
/// the rotation range in milliradians; font family and weight are opaque
/// pass-through strings.
pub struct CloudOptions {
    pub width: u32,
    pub height: u32,
    pub font_family: String,
    pub font_weight: String,
    pub min_size: i64,
    pub max_size: i64,
    pub rotation_range: i64,
    pub spiral: SpiralKind,
}

pub open spec fn options_wf(o: CloudOptions) -> bool {
    &&& 1 <= o.width <= units::CANVAS_MAX_PX
    &&& 1 <= o.height <= units::CANVAS_MAX_PX
    &&& 0 < o.min_size <= o.max_size <= units::SIZE_MAX_FP
    &&& 0 <= o.rotation_range <= units::ROTATION_RANGE_MAX_FP
}

/// Smallest weight in a non-empty batch.
pub open spec fn min_weight_of(ws: Seq<WordItem>) -> int
    decreases ws.len(),
{
    if ws.len() <= 1 {
        ws[0].weight as int
    } else {
        let m = min_weight_of(ws.drop_last());
        if (ws[ws.len() - 1].weight as int) < m {
            ws[ws.len() - 1].weight as int
        } else {
            m
        }
    }
}

/// Largest weight in a non-empty batch.
pub open spec fn max_weight_of(ws: Seq<WordItem>) -> int
    decreases ws.len(),
{
    if ws.len() <= 1 {
        ws[0].weight as int
    } else {
        let m = max_weight_of(ws.drop_last());
        if (ws[ws.len() - 1].weight as int) > m {
            ws[ws.len() - 1].weight as int
        } else {
            m
        }
    }
}

/// Every weight of a non-empty batch lies between the batch extremes.
pub proof fn lemma_weight_bounds(ws: Seq<WordItem>, i: int)
    requires
        0 <= i < ws.len(),
    ensures
        min_weight_of(ws) <= ws[i].weight <= max_weight_of(ws),
        min_weight_of(ws) <= max_weight_of(ws),
    decreases ws.len(),
{
    if ws.len() > 1 {
        if i < ws.len() - 1 {
            lemma_weight_bounds(ws.drop_last(), i);
        } else {
            lemma_weight_bounds(ws.drop_last(), 0);
        }
    }
}

/// A uniform-weight batch has equal extremes.
pub proof fn lemma_uniform_weights(ws: Seq<WordItem>)
    requires
        ws.len() >= 1,
        forall|i: int, j: int|
            0 <= i < ws.len() && 0 <= j < ws.len() ==> #[trigger] ws[i].weight
                == #[trigger] ws[j].weight,
    ensures
        min_weight_of(ws) == max_weight_of(ws),
    decreases ws.len(),
{
    if ws.len() > 1 {
        lemma_uniform_weights(ws.drop_last());
    }
}

/// The axis-aligned bounds a placed label claims: the rotated bounds of its
/// estimated extent around its center.
pub open spec fn placed_box(p: WordPosition) -> geom::BoxFp {
    geom::spec_bbox(
        p.x as int,
        p.y as int,
        sizing::spec_estimate_width(p.size->0 as int, p.text@.len() as int),
        p.size->0 as int,
        p.rotate as int,
    )
}

/// The placed label `p` is what placing input `wi` must produce: text,
/// weight and color pass through, the size is the interpolated one, an
/// explicit rotation is honored and a drawn one stays inside the range.
pub open spec fn matches_input(
    p: WordPosition,
    wi: WordItem,
    min_w: int,
    max_w: int,
    min_size: int,
    max_size: int,
    rotation_range: int,
) -> bool {
    &&& p.text == wi.text
    &&& p.weight == wi.weight
    &&& p.color == wi.color
    &&& p.size == Some(
        sizing::spec_map_size(wi.weight as int, min_w, max_w, min_size, max_size) as i64,
    )
    &&& (wi.rotate is Some ==> p.rotate == wi.rotate->0)
    &&& (wi.rotate is None ==> -rotation_range <= p.rotate <= rotation_range)
    &&& (wi.rotate is None && rotation_range == 0 ==> p.rotate == 0)
}

/// Some input label of the batch accounts for the placed label `p`.
pub open spec fn some_input_matches(
    p: WordPosition,
    words: Seq<WordItem>,
    min_size: int,
    max_size: int,
    rotation_range: int,
) -> bool {
    exists|i: int|
        0 <= i < words.len() && #[trigger] matches_input(p, words[i], min_weight_of(words),
            max_weight_of(words), min_size, max_size, rotation_range)
}

/// `sel` selects, in strictly increasing input order, the input label that
/// each placed label answers: the output is a subsequence of the input
/// order.
pub open spec fn is_ordered_selection(
    placed: Seq<WordPosition>,
    words: Seq<WordItem>,
    sel: Seq<int>,
    min_size: int,
    max_size: int,
    rotation_range: int,
) -> bool {
    &&& sel.len() == placed.len()
    &&& forall|k: int| 0 <= k < sel.len() ==> 0 <= #[trigger] sel[k] < words.len()
    &&& forall|k1: int, k2: int| 0 <= k1 < k2 < sel.len() ==> #[trigger] sel[k1] < #[trigger] sel[k2]
    &&& forall|k: int|
        0 <= k < sel.len() ==> matches_input(placed[k], words[#[trigger] sel[k]],
            min_weight_of(words), max_weight_of(words), min_size, max_size, rotation_range)
}

pub struct WordCloud {
    options: CloudOptions,
    grid: OccupancyGrid,
    rng: RandomSource,
}

impl WordCloud {
    pub closed spec fn spec_options(self) -> CloudOptions {
        self.options
    }

    pub closed spec fn spec_grid(self) -> OccupancyGrid {
        self.grid
    }

    pub closed spec fn spec_rng_state(self) -> u64 {
        self.rng.spec_state()
    }

    /// Valid options and a grid whose dimensions discretize the canvas.
    pub closed spec fn wf(self) -> bool {
        &&& options_wf(self.options)
        &&& self.grid.wf()
        &&& self.grid.spec_width() == self.options.width as int / (units::CELL_PX as int) + 1
        &&& self.grid.spec_height() == self.options.height as int / (units::CELL_PX as int) + 1
    }

    /// Canvas center, in milli-pixels.
    pub open spec fn spec_center_x(self) -> int {
        (self.spec_options().width as int) * (units::SCALE as int) / 2
    }

    pub open spec fn spec_center_y(self) -> int {
        (self.spec_options().height as int) * (units::SCALE as int) / 2
    }

    /// The collision test: the bounds of the rotated rectangle either leave
    /// the canvas or cover an already occupied cell.
    pub open spec fn spec_collides(self, x: int, y: int, w: int, h: int, rot: int) -> bool {
        let b = geom::spec_bbox(x, y, w, h, rot);
        ||| !geom::box_in_canvas(b, self.spec_options().width as int,
            self.spec_options().height as int)
        ||| exists|i: int, j: int|
            0 <= i < self.spec_grid().spec_width() && 0 <= j < self.spec_grid().spec_height()
                && geom::covers_cell(b, i, j) && #[trigger] self.spec_grid().cell(i, j)
    }

    /// Candidate `n` of the spiral search for an anchor `(cx, cy)`.
    pub open spec fn spec_candidate(self, cx: int, cy: int, n: int) -> (int, int) {
        (cx + spiral::spec_offset(self.spec_options().spiral, n).0, cy + spiral::spec_offset(
            self.spec_options().spiral,
            n,
        ).1)
    }

    /// Whether candidate `n` collides.
    pub open spec fn spec_candidate_collides(
        self,
        cx: int,
        cy: int,
        w: int,
        h: int,
        rot: int,
        n: int,
    ) -> bool {
        self.spec_collides(self.spec_candidate(cx, cy, n).0, self.spec_candidate(cx, cy, n).1, w,
            h, rot)
    }

    /// The label, resolved at the largest size and unrotated, fits the
    /// canvas when centered: its bounds stay inside the canvas.
    pub open spec fn spec_fits_centered(self, wi: WordItem) -> bool {
        let size = self.spec_options().max_size as int;
        geom::box_in_canvas(
            geom::spec_bbox(
                self.spec_center_x(),
                self.spec_center_y(),
                sizing::spec_estimate_width(size, wi.text@.len() as int),
                size,
                0,
            ),
            self.spec_options().width as int,
            self.spec_options().height as int,
        )
    }

    /// A rectangle that passes the collision test cannot overlap any
    /// already-placed label whose cells are all marked: the shared cell the
    /// overlap would force is both marked and tested free.
    proof fn lemma_disjoint_from_placed(
        self,
        placed: Seq<WordPosition>,
        x: int,
        y: int,
        w: int,
        h: int,
        rot: int,
    )
        requires
            self.wf(),
            !self.spec_collides(x, y, w, h, rot),
            forall|k: int|
                0 <= k < placed.len() ==> geom::box_in_canvas(#[trigger] placed_box(placed[k]),
                    self.spec_options().width as int, self.spec_options().height as int),
            forall|k: int, ci: int, cj: int|
                0 <= k < placed.len() && 0 <= ci < self.spec_grid().spec_width() && 0 <= cj
                    < self.spec_grid().spec_height() && #[trigger] geom::covers_cell(
                    placed_box(placed[k]),
                    ci,
                    cj,
                ) ==> self.spec_grid().cell(ci, cj),
        ensures
            geom::box_in_canvas(geom::spec_bbox(x, y, w, h, rot), self.spec_options().width as int,
                self.spec_options().height as int),
            forall|k: int|
                0 <= k < placed.len() ==> !geom::boxes_overlap(#[trigger] placed_box(placed[k]),
                    geom::spec_bbox(x, y, w, h, rot)),
    {
        let bn = geom::spec_bbox(x, y, w, h, rot);
        geom::lemma_bbox_ordered(x, y, w, h, rot);
        assert forall|k: int| 0 <= k < placed.len() implies !geom::boxes_overlap(
            #[trigger] placed_box(placed[k]),
            bn,
        ) by {
            if geom::boxes_overlap(placed_box(placed[k]), bn) {
                let pk = placed[k];
                let bk = placed_box(pk);
                geom::lemma_bbox_ordered(pk.x as int, pk.y as int, sizing::spec_estimate_width(
                    pk.size->0 as int, pk.text@.len() as int), pk.size->0 as int, pk.rotate as int);
                geom::lemma_overlap_shares_cell(bk, bn);
                let (ci, cj) = choose|ci: int, cj: int|
                    geom::covers_cell(bk, ci, cj) && geom::covers_cell(bn, ci, cj);
                geom::lemma_cell_index_in_grid(bk.x1, self.spec_options().width as int);
                geom::lemma_cell_index_in_grid(bk.y1, self.spec_options().height as int);
                vstd::arithmetic::div_mod::lemma_div_is_ordered(0, bk.x0, units::CELL_FP as int);
                vstd::arithmetic::div_mod::lemma_div_is_ordered(0, bk.y0, units::CELL_FP as int);
                assert(0 <= ci < self.spec_grid().spec_width() && 0 <= cj
                    < self.spec_grid().spec_height());
                assert(self.spec_grid().cell(ci, cj));
                assert(self.spec_collides(x, y, w, h, rot));
                assert(false);
            }
        }
    }

    /// On a fully free grid the anchor candidate of a label that fits
    /// centered is collision-free, and it is the first candidate probed.
    proof fn lemma_first_candidate_free(self, wi: WordItem, cx: int, cy: int, w: int, h: int)
        requires
            self.wf(),
            self.spec_grid().all_free(),
            cx == self.spec_center_x(),
            cy == self.spec_center_y(),
            w == sizing::spec_estimate_width(self.spec_options().max_size as int,
                wi.text@.len() as int),
            h == self.spec_options().max_size as int,
            self.spec_fits_centered(wi),
        ensures
            self.spec_candidate(cx, cy, 0) == (cx, cy),
            !self.spec_candidate_collides(cx, cy, w, h, 0, 0),
    {
        spiral::lemma_offset_zero(self.spec_options().spiral);
        assert(!self.spec_collides(cx, cy, w, h, 0)) by {
            assert(forall|ci: int, cj: int|
                0 <= ci < self.spec_grid().spec_width() && 0 <= cj
                    < self.spec_grid().spec_height() ==> !#[trigger] self.spec_grid().cell(
                    ci,
                    cj,
                ));
        }
    }

    /// A fresh engine over the given canvas with a free grid, no random
    /// rotation and the archimedean spiral.
    pub fn new(
        width: u32,
        height: u32,
        font_family: String,
        font_weight: String,
        min_size: i64,
        max_size: i64,
    ) -> (wc: WordCloud)
        requires
            1 <= width <= units::CANVAS_MAX_PX,
            1 <= height <= units::CANVAS_MAX_PX,
            0 < min_size <= max_size <= units::SIZE_MAX_FP,
        ensures
            wc.wf(),
            wc.spec_options().width == width,
            wc.spec_options().height == height,
            wc.spec_options().font_family == font_family,
            wc.spec_options().font_weight == font_weight,
            wc.spec_options().min_size == min_size,
            wc.spec_options().max_size == max_size,
            wc.spec_options().rotation_range == 0,
            wc.spec_options().spiral == SpiralKind::Archimedean,
            wc.spec_grid().all_free(),
    {
        let options = CloudOptions {
            width,
            height,
            font_family,
            font_weight,
            min_size,
            max_size,
            rotation_range: 0,
            spiral: SpiralKind::Archimedean,
        };
        let grid_w: usize = (width / units::CELL_PX + 1) as usize;
        let grid_h: usize = (height / units::CELL_PX + 1) as usize;
        let grid = OccupancyGrid::new(grid_w, grid_h);
        WordCloud { options, grid, rng: RandomSource::new(0) }
    }

    /// Reseeds the rotation draw, so that runs are reproducible.
    pub fn set_seed(&mut self, seed: u64)
        requires
            old(self).wf(),
        ensures
            final(self).wf(),
            final(self).spec_options() == old(self).spec_options(),
            final(self).spec_grid() == old(self).spec_grid(),
            final(self).spec_rng_state() == seed,
    {
        self.rng = RandomSource::new(seed);
    }

    /// Rebuilds the grid, all cells free, for the current canvas size.
    /// Always succeeds.
    pub fn reset_grid(&mut self) -> (ok: bool)
        requires
            old(self).wf(),
        ensures
            final(self).wf(),
            ok == true,
            final(self).spec_options() == old(self).spec_options(),
            final(self).spec_rng_state() == old(self).spec_rng_state(),
            final(self).spec_grid().all_free(),
    {
        let grid_w: usize = (self.options.width / units::CELL_PX + 1) as usize;
        let grid_h: usize = (self.options.height / units::CELL_PX + 1) as usize;
        self.grid = OccupancyGrid::new(grid_w, grid_h);
        true
    }

    /// Sets the rotation range (milliradians) for labels without an explicit
    /// rotation.
    pub fn set_rotation_range(&mut self, rotation_range: i64)
        requires
            old(self).wf(),
            0 <= rotation_range <= units::ROTATION_RANGE_MAX_FP,
        ensures
            final(self).wf(),
            final(self).spec_options() == (CloudOptions {
                rotation_range,
                ..old(self).spec_options()
            }),
            final(self).spec_grid() == old(self).spec_grid(),
            final(self).spec_rng_state() == old(self).spec_rng_state(),
    {
        self.options.rotation_range = rotation_range;
    }

    /// Selects the spiral kind by name; an unrecognized name falls back to
    /// the archimedean spiral.
    pub fn set_spiral(&mut self, spiral: String)
        requires
            old(self).wf(),
        ensures
            final(self).wf(),
            final(self).spec_options() == (CloudOptions {
                spiral: if spiral@ == "rectangular"@ {
                    SpiralKind::Rectangular
                } else {
                    SpiralKind::Archimedean
                },
                ..old(self).spec_options()
            }),
            final(self).spec_grid() == old(self).spec_grid(),
            final(self).spec_rng_state() == old(self).spec_rng_state(),
    {
        let rectangular: String = "rectangular".to_owned();
        let kind = if spiral == rectangular {
            SpiralKind::Rectangular
        } else {
            SpiralKind::Archimedean
        };
        self.options.spiral = kind;
    }

    /// Tests whether a `w` by `h` rectangle centered at `(x, y)` and rotated
    /// by `rot` collides: covers an occupied cell or leaves the canvas.
    pub fn check_collision(&self, x: i64, y: i64, w: i64, h: i64, rot: i64) -> (b: bool)
        requires
            self.wf(),
            -100_000_000 <= x <= 100_000_000,
            -100_000_000 <= y <= 100_000_000,
            0 <= w <= units::DIM_MAX_FP,
            0 <= h <= units::DIM_MAX_FP,
        ensures
            b == self.spec_collides(x as int, y as int, w as int, h as int, rot as int),
    {
        let bb = geom::compute_bbox(x, y, w, h, rot);
        let wm: i64 = (self.options.width as i64) * units::SCALE;
        let hm: i64 = (self.options.height as i64) * units::SCALE;
        if bb.0 < 0 || bb.2 > wm || bb.1 < 0 || bb.3 > hm {
            return true;
        }
        proof {
            geom::lemma_cell_index_in_grid(bb.0 as int, self.options.width as int);
            geom::lemma_cell_index_in_grid(bb.2 as int, self.options.width as int);
            geom::lemma_cell_index_in_grid(bb.1 as int, self.options.height as int);
            geom::lemma_cell_index_in_grid(bb.3 as int, self.options.height as int);
            vstd::arithmetic::div_mod::lemma_div_is_ordered(bb.0 as int, bb.2 as int,
                units::CELL_FP as int);
            vstd::arithmetic::div_mod::lemma_div_is_ordered(bb.1 as int, bb.3 as int,
                units::CELL_FP as int);
        }
        let i0: usize = (bb.0 / units::CELL_FP) as usize;
        let i1: usize = (bb.2 / units::CELL_FP) as usize;
        let j0: usize = (bb.1 / units::CELL_FP) as usize;
        let j1: usize = (bb.3 / units::CELL_FP) as usize;
        let occupied = self.grid.range_occupied(i0, i1, j0, j1);
        proof {
            let b = geom::spec_bbox(x as int, y as int, w as int, h as int, rot as int);
            if occupied {
                let (i, j) = choose|i: int, j: int|
                    i0 <= i <= i1 && j0 <= j <= j1 && #[trigger] self.grid.cell(i, j);
                assert(geom::covers_cell(b, i, j));
                assert(self.spec_collides(x as int, y as int, w as int, h as int, rot as int));
            } else {
                assert forall|i: int, j: int|
                    0 <= i < self.spec_grid().spec_width() && 0 <= j
                        < self.spec_grid().spec_height() && geom::covers_cell(b, i, j) implies !#[trigger] self.spec_grid().cell(
                    i,
                    j,
                ) by {}
            }
        }
        occupied
    }

    /// Marks every grid cell covered by the rectangle's bounds as occupied.
    /// Identical geometry to the collision test; cells are never unmarked.
    pub fn mark_grid_as_occupied(&mut self, x: i64, y: i64, w: i64, h: i64, rot: i64)
        requires
            old(self).wf(),
            -100_000_000 <= x <= 100_000_000,
            -100_000_000 <= y <= 100_000_000,
            0 <= w <= units::DIM_MAX_FP,
            0 <= h <= units::DIM_MAX_FP,
            geom::box_in_canvas(
                geom::spec_bbox(x as int, y as int, w as int, h as int, rot as int),
                old(self).spec_options().width as int,
                old(self).spec_options().height as int,
            ),
        ensures
            final(self).wf(),
            final(self).spec_options() == old(self).spec_options(),
            final(self).spec_rng_state() == old(self).spec_rng_state(),
            forall|i: int, j: int|
                0 <= i < old(self).spec_grid().spec_width() && 0 <= j < old(
                    self,
                ).spec_grid().spec_height() ==> #[trigger] final(self).spec_grid().cell(i, j) == (
                old(self).spec_grid().cell(i, j) || geom::covers_cell(
                    geom::spec_bbox(x as int, y as int, w as int, h as int, rot as int),
                    i,
                    j,
                )),
    {
        let bb = geom::compute_bbox(x, y, w, h, rot);
        proof {
            geom::lemma_cell_index_in_grid(bb.0 as int, self.options.width as int);
            geom::lemma_cell_index_in_grid(bb.2 as int, self.options.width as int);
            geom::lemma_cell_index_in_grid(bb.1 as int, self.options.height as int);
            geom::lemma_cell_index_in_grid(bb.3 as int, self.options.height as int);
            vstd::arithmetic::div_mod::lemma_div_is_ordered(bb.0 as int, bb.2 as int,
                units::CELL_FP as int);
            vstd::arithmetic::div_mod::lemma_div_is_ordered(bb.1 as int, bb.3 as int,
                units::CELL_FP as int);
        }
        let i0: usize = (bb.0 / units::CELL_FP) as usize;
        let i1: usize = (bb.2 / units::CELL_FP) as usize;
        let j0: usize = (bb.1 / units::CELL_FP) as usize;
        let j1: usize = (bb.3 / units::CELL_FP) as usize;
        self.grid.mark_range(i0, i1, j0, j1);
    }

    /// Spiral search: probes up to `MAX_ATTEMPTS` candidates from the anchor
    /// out and returns the first collision-free center, or nothing once the
    /// budget is exhausted. Succeeds exactly when some candidate within the
    /// budget is collision-free.
    pub fn find_position_for_word(
        &self,
        center_x: i64,
        center_y: i64,
        word_width: i64,
        word_height: i64,
        rotation: i64,
    ) -> (r: Option<(i64, i64)>)
        requires
            self.wf(),
            0 <= center_x <= 65_000_000,
            0 <= center_y <= 65_000_000,
            0 <= word_width <= units::DIM_MAX_FP,
            0 <= word_height <= units::DIM_MAX_FP,
        ensures
            r is Some ==> exists|n: int|
                0 <= n < units::MAX_ATTEMPTS && ((r->0).0 as int, (r->0).1 as int)
                    == self.spec_candidate(center_x as int, center_y as int, n)
                    && !#[trigger] self.spec_candidate_collides(center_x as int, center_y as int,
                    word_width as int, word_height as int, rotation as int, n) && (forall|m: int|
                    0 <= m < n ==> #[trigger] self.spec_candidate_collides(center_x as int,
                        center_y as int, word_width as int, word_height as int, rotation as int,
                        m,
                    )),
            r is None ==> forall|n: int|
                0 <= n < units::MAX_ATTEMPTS ==> #[trigger] self.spec_candidate_collides(
                    center_x as int,
                    center_y as int,
                    word_width as int,
                    word_height as int,
                    rotation as int,
                    n,
                ),
            r is Some ==> !self.spec_collides((r->0).0 as int, (r->0).1 as int, word_width as int,
                word_height as int, rotation as int),
            r is Some ==> -100_000_000 <= (r->0).0 <= 100_000_000 && -100_000_000 <= (r->0).1
                <= 100_000_000,
            (r is Some && !self.spec_candidate_collides(center_x as int, center_y as int,
                word_width as int, word_height as int, rotation as int, 0)) ==> ((r->0).0 as int, (r->0).1 as int)
                == self.spec_candidate(center_x as int, center_y as int, 0),
    {
        let mut path = SpiralPath::new(self.options.spiral);
        let mut attempt: u32 = 0;
        while attempt < units::MAX_ATTEMPTS
            invariant
                self.wf(),
                path.wf(),
                path.spec_kind() == self.spec_options().spiral,
                path.spec_steps() == attempt,
                attempt <= units::MAX_ATTEMPTS,
                0 <= center_x <= 65_000_000,
                0 <= center_y <= 65_000_000,
                0 <= word_width <= units::DIM_MAX_FP,
                0 <= word_height <= units::DIM_MAX_FP,
                forall|m: int|
                    0 <= m < attempt ==> #[trigger] self.spec_candidate_collides(center_x as int,
                        center_y as int, word_width as int, word_height as int, rotation as int,
                        m,
                    ),
            decreases units::MAX_ATTEMPTS - attempt,
        {
            let off = path.next();
            let x = center_x + off.0;
            let y = center_y + off.1;
            if !self.check_collision(x, y, word_width, word_height, rotation) {
                proof {
                    let n = attempt as int;
                    assert((x as int, y as int) == self.spec_candidate(center_x as int,
                        center_y as int, n));
                    assert(!self.spec_candidate_collides(center_x as int, center_y as int,
                        word_width as int, word_height as int, rotation as int, n));
                }
                return Some((x, y));
            }
            attempt = attempt + 1;
        }
        None
    }

    /// One full layout run. Rebuilds the grid, maps each label's weight to a
    /// size, resolves its rotation, and probes spiral candidates from the
    /// canvas center until a collision-free spot is found; a label with no
    /// spot within the attempt budget is silently omitted.
    ///
    /// The contract carries the run's guarantees: every placed label's
    /// rotated bounds lie inside the canvas; no two placed labels' bounds
    /// overlap; every placed label answers an input label with the
    /// interpolated size and the resolved rotation; a uniform-weight batch is
    /// placed entirely at the largest size; an empty batch places nothing;
    /// and a single explicitly unrotated label that fits is placed dead
    /// center.
    #[verifier::rlimit(100)]
    pub fn generate_layout(&mut self, words: Vec<WordItem>) -> (placed: Vec<WordPosition>)
        requires
            old(self).wf(),
            forall|i: int|
                0 <= i < words@.len() ==> #[trigger] words@[i].text@.len() <= units::TEXT_LEN_MAX,
        ensures
            final(self).wf(),
            final(self).spec_options() == old(self).spec_options(),
            words@.len() == 0 ==> placed@.len() == 0,
            placed@.len() <= words@.len(),
            forall|k: int|
                0 <= k < placed@.len() ==> geom::box_in_canvas(#[trigger] placed_box(placed@[k]),
                    old(self).spec_options().width as int, old(self).spec_options().height as int),
            forall|k1: int, k2: int|
                #![trigger placed_box(placed@[k1]), placed_box(placed@[k2])]
                0 <= k1 < k2 < placed@.len() ==> !geom::boxes_overlap(placed_box(placed@[k1]),
                    placed_box(placed@[k2])),
            forall|k: int|
                0 <= k < placed@.len() ==> #[trigger] some_input_matches(placed@[k], words@,
                    old(self).spec_options().min_size as int,
                    old(self).spec_options().max_size as int,
                    old(self).spec_options().rotation_range as int),
            exists|sel: Seq<int>|
                #[trigger] is_ordered_selection(placed@, words@, sel,
                    old(self).spec_options().min_size as int,
                    old(self).spec_options().max_size as int,
                    old(self).spec_options().rotation_range as int),
            (words@.len() >= 1 && (forall|a: int, b: int|
                0 <= a < words@.len() && 0 <= b < words@.len() ==> #[trigger] words@[a].weight
                    == #[trigger] words@[b].weight)) ==> (forall|k: int|
                0 <= k < placed@.len() ==> #[trigger] placed@[k].size == Some(
                    old(self).spec_options().max_size,
                )),
            (words@.len() == 1 && words@[0].rotate == Some(0i64) && old(self).spec_fits_centered(
                words@[0],
            )) ==> (placed@.len() == 1 && placed@[0].x as int == old(self).spec_center_x()
                && placed@[0].y as int == old(self).spec_center_y() && placed@[0].rotate == 0),
    {
        self.reset_grid();
        let nw = words.len();
        if nw == 0 {
            let empty: Vec<WordPosition> = Vec::new();
            proof {
                let sel = Seq::<int>::empty();
                assert(is_ordered_selection(empty@, words@, sel,
                    old(self).spec_options().min_size as int,
                    old(self).spec_options().max_size as int,
                    old(self).spec_options().rotation_range as int));
            }
            return empty;
        }
        let mut min_w: i64 = words[0].weight;
        let mut max_w: i64 = words[0].weight;
        let mut i: usize = 1;
        proof {
            assert(words@.take(1int).len() == 1);
            assert(words@.take(1int)[0] == words@[0]);
        }
        while i < nw
            invariant
                1 <= i <= nw,
                nw == words@.len(),
                min_w == min_weight_of(words@.take(i as int)),
                max_w == max_weight_of(words@.take(i as int)),
            decreases nw - i,
        {
            proof {
                let t1 = words@.take((i + 1) as int);
                assert(t1.drop_last() =~= words@.take(i as int));
                assert(t1[t1.len() - 1] == words@[i as int]);
            }
            let w = words[i].weight;
            if w < min_w {
                min_w = w;
            }
            if w > max_w {
                max_w = w;
            }
            i = i + 1;
        }
        proof {
            assert(words@.take(nw as int) =~= words@);
            lemma_weight_bounds(words@, 0);
        }
        let center_x: i64 = (self.options.width as i64) * units::SCALE / 2;
        let center_y: i64 = (self.options.height as i64) * units::SCALE / 2;
        let ghost opts = self.spec_options();
        let mut placed: Vec<WordPosition> = Vec::new();
        let ghost mut widx: Seq<int> = Seq::empty();
        let mut idx: usize = 0;
        while idx < nw
            invariant
                self.wf(),
                self.spec_options() == opts,
                options_wf(opts),
                nw == words@.len(),
                1 <= nw,
                idx <= nw,
                min_w == min_weight_of(words@),
                max_w == max_weight_of(words@),
                min_w <= max_w,
                center_x == (opts.width as int) * (units::SCALE as int) / 2,
                center_y == (opts.height as int) * (units::SCALE as int) / 2,
                0 <= center_x <= 32_500_000,
                0 <= center_y <= 32_500_000,
                forall|i: int|
                    0 <= i < words@.len() ==> #[trigger] words@[i].text@.len()
                        <= units::TEXT_LEN_MAX,
                placed@.len() <= idx,
                forall|k: int|
                    0 <= k < placed@.len() ==> geom::box_in_canvas(
                        #[trigger] placed_box(placed@[k]),
                        opts.width as int,
                        opts.height as int,
                    ),
                forall|k1: int, k2: int|
                    #![trigger placed_box(placed@[k1]), placed_box(placed@[k2])]
                    0 <= k1 < k2 < placed@.len() ==> !geom::boxes_overlap(placed_box(placed@[k1]),
                        placed_box(placed@[k2])),
                forall|k: int|
                    0 <= k < placed@.len() ==> #[trigger] some_input_matches(placed@[k], words@,
                        opts.min_size as int, opts.max_size as int, opts.rotation_range as int),
                widx.len() == placed@.len(),
                forall|k: int| 0 <= k < widx.len() ==> 0 <= #[trigger] widx[k] < idx,
                forall|k1: int, k2: int|
                    0 <= k1 < k2 < widx.len() ==> #[trigger] widx[k1] < #[trigger] widx[k2],
                forall|k: int|
                    0 <= k < widx.len() ==> matches_input(placed@[k], words@[#[trigger] widx[k]],
                        min_weight_of(words@), max_weight_of(words@), opts.min_size as int,
                        opts.max_size as int, opts.rotation_range as int),
                forall|k: int, ci: int, cj: int|
                    0 <= k < placed@.len() && 0 <= ci < self.spec_grid().spec_width() && 0 <= cj
                        < self.spec_grid().spec_height() && #[trigger] geom::covers_cell(
                        placed_box(placed@[k]),
                        ci,
                        cj,
                    ) ==> self.spec_grid().cell(ci, cj),
                idx == 0 ==> self.spec_grid().all_free() && placed@.len() == 0,
                (words@.len() == 1 && words@[0].rotate == Some(0i64) && self.spec_fits_centered(
                    words@[0],
                ) && idx >= 1) ==> (placed@.len() == 1 && placed@[0].x as int == center_x
                    && placed@[0].y as int == center_y && placed@[0].rotate == 0),
            decreases nw - idx,
        {
            let word = &words[idx];
            proof {
                lemma_weight_bounds(words@, idx as int);
            }
            let size = sizing::map_size(word.weight, min_w, max_w, self.options.min_size,
                self.options.max_size);
            let chars = word.text.as_str().unicode_len();
            let dims = sizing::estimate_box(chars, size);
            let rotation: i64 = match word.rotate {
                Some(r) => r,
                None => {
                    if self.options.rotation_range > 0 {
                        let range = self.options.rotation_range;
                        let span: u64 = (2 * range + 1) as u64;
                        let v = self.rng.next_in_range(span);
                        (v as i64) - range
                    } else {
                        0
                    }
                },
            };
            let found = self.find_position_for_word(center_x, center_y, dims.0, dims.1, rotation);
            proof {
                if words@.len() == 1 && words@[0].rotate == Some(0i64) && self.spec_fits_centered(
                    words@[0],
                ) && idx == 0 {
                    assert(min_weight_of(words@) == words@[0].weight);
                    assert(max_weight_of(words@) == words@[0].weight);
                    assert(size == opts.max_size);
                    assert(rotation == 0);
                    self.lemma_first_candidate_free(words@[0], center_x as int, center_y as int,
                        dims.0 as int, dims.1 as int);
                    if found is None {
                        assert(self.spec_candidate_collides(center_x as int, center_y as int,
                            dims.0 as int, dims.1 as int, 0, 0));
                        assert(false);
                    }
                    assert(((found->0).0 as int, (found->0).1 as int) == (center_x as int,
                    center_y as int));
                }
            }
            match found {
                Some(pos) => {
                    let ghost pre = *self;
                    proof {
                        pre.lemma_disjoint_from_placed(placed@, pos.0 as int, pos.1 as int,
                            dims.0 as int, dims.1 as int, rotation as int);
                    }
                    self.mark_grid_as_occupied(pos.0, pos.1, dims.0, dims.1, rotation);
                    let color: Option<String> = match &word.color {
                        Some(c) => Some(c.clone()),
                        None => None,
                    };
                    let wp = WordPosition {
                        text: word.text.clone(),
                        weight: word.weight,
                        x: pos.0,
                        y: pos.1,
                        rotate: rotation,
                        color,
                        size: Some(size),
                    };
                    proof {
                        assert(placed_box(wp) == geom::spec_bbox(pos.0 as int, pos.1 as int,
                            dims.0 as int, dims.1 as int, rotation as int));
                        assert(matches_input(wp, words@[idx as int], min_weight_of(words@),
                            max_weight_of(words@), opts.min_size as int, opts.max_size as int,
                            opts.rotation_range as int));
                    }
                    let ghost prev = placed@;
                    let ghost prev_widx = widx;
                    placed.push(wp);
                    proof {
                        widx = widx.push(idx as int);
                        assert forall|k: int| 0 <= k < widx.len() implies matches_input(
                            placed@[k],
                            words@[#[trigger] widx[k]],
                            min_weight_of(words@),
                            max_weight_of(words@),
                            opts.min_size as int,
                            opts.max_size as int,
                            opts.rotation_range as int,
                        ) by {
                            if k < widx.len() - 1 {
                                assert(placed@[k] == prev[k]);
                                assert(widx[k] == prev_widx[k]);
                            } else {
                                assert(placed@[k] == wp);
                                assert(widx[k] == idx as int);
                            }
                        }
                        assert forall|k: int| 0 <= k < placed@.len() implies
                            #[trigger] some_input_matches(placed@[k], words@, opts.min_size as int,
                            opts.max_size as int, opts.rotation_range as int) by {
                            if k == placed@.len() - 1 {
                                assert(placed@[k] == wp);
                                assert(matches_input(placed@[k], words@[idx as int],
                                    min_weight_of(words@), max_weight_of(words@),
                                    opts.min_size as int, opts.max_size as int,
                                    opts.rotation_range as int));
                            } else {
                                assert(placed@[k] == prev[k]);
                                assert(some_input_matches(prev[k], words@, opts.min_size as int,
                                    opts.max_size as int, opts.rotation_range as int));
                            }
                        }
                    }
                },
                None => {
                },
            }
            idx = idx + 1;
        }
        proof {
            assert(is_ordered_selection(placed@, words@, widx, opts.min_size as int,
                opts.max_size as int, opts.rotation_range as int));
            if words@.len() >= 1 && (forall|a: int, b: int|
                0 <= a < words@.len() && 0 <= b < words@.len() ==> #[trigger] words@[a].weight
                    == #[trigger] words@[b].weight) {
                lemma_uniform_weights(words@);
                assert forall|k: int| 0 <= k < placed@.len() implies #[trigger] placed@[k].size
                    == Some(opts.max_size) by {
                    assert(some_input_matches(placed@[k], words@, opts.min_size as int,
                        opts.max_size as int, opts.rotation_range as int));
                    let i = choose|i: int|
                        0 <= i < words@.len() && #[trigger] matches_input(placed@[k], words@[i],
                            min_weight_of(words@), max_weight_of(words@), opts.min_size as int,
                            opts.max_size as int, opts.rotation_range as int);
                    assert(matches_input(placed@[k], words@[i], min_weight_of(words@),
                        max_weight_of(words@), opts.min_size as int, opts.max_size as int,
                        opts.rotation_range as int));
                }
            }
        }
        placed
    }
}

} // verus!
