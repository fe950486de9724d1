//! Mathematical model of one full scan: the working state carried from pixel
//! to pixel, and the step function that processes a single pixel. The
//! executable scanner is proved to follow this model exactly.

use vstd::prelude::*;
use crate::hist::{count_eq, median_spec, sum_prefix};
use crate::{grey_at, MEDIAN_RADIUS, MEDIAN_WINDOW_SIZE, POINT_EXCLUSION_RADIUS, POINT_THRESHOLD};

verus! {

/// One recorded bright point: column, row, and the peak contrast value.
pub struct CandidateModel {
    pub x: int,
    pub y: int,
    pub val: int,
}

/// The detector's per-pixel state.
pub enum StateModel {
    /// No active candidate.
    Searching,
    /// Tracking a not-yet-recorded blob, with its running maximum.
    WithinNewPoint { x: int, y: int, max_val: int },
    /// Tracking a blob that matched a recorded point by horizontal proximity.
    WithinExistingPoint { index: int },
    /// Cooldown after a blob closed, for `remaining` further pixels.
    WithinGuard { remaining: int },
}

/// The whole working state of the scan before one pixel is processed.
pub struct ScanModel {
    /// Histogram bins over the sliding window's greyscale values.
    pub bins: Seq<int>,
    /// Number of samples the histogram represents.
    pub total: int,
    /// Circular buffer of the window's greyscale values.
    pub cache: Seq<int>,
    /// Current position in the circular buffer.
    pub idx: int,
    /// Detector state.
    pub state: StateModel,
    /// All points recorded so far, in discovery order.
    pub points: Seq<CandidateModel>,
    /// Indices into `points` still eligible for cross-row merging.
    pub recent: Seq<int>,
    /// Column of the pixel about to be processed.
    pub x: int,
    /// Row of the pixel about to be processed.
    pub y: int,
}

/// Entries whose point's row lies more than the exclusion radius above the
/// current row are dropped from the front of the recent list. The bounds
/// test on the front entry only keeps the definition total; a well-formed
/// scan state never fails it.
pub open spec fn prune_recent_spec(points: Seq<CandidateModel>, recent: Seq<int>, y: int) -> Seq<
    int,
>
    decreases recent.len(),
{
    if recent.len() > 0 && 0 <= recent[0] < points.len() && points[recent[0]].y < y
        - POINT_EXCLUSION_RADIUS {
        prune_recent_spec(points, recent.drop_first(), y)
    } else {
        recent
    }
}

/// The first recent entry whose point's column is within the exclusion
/// radius of `x`, in list order. As in the pruning rule, the bounds test
/// only keeps the definition total.
pub open spec fn find_match_spec(points: Seq<CandidateModel>, recent: Seq<int>, x: int) -> Option<
    int,
>
    decreases recent.len(),
{
    if recent.len() == 0 {
        None
    } else if 0 <= recent[0] < points.len() && abs_diff(points[recent[0]].x, x)
        < POINT_EXCLUSION_RADIUS {
        Some(recent[0])
    } else {
        find_match_spec(points, recent.drop_first(), x)
    }
}

/// Absolute difference of two integers.
pub open spec fn abs_diff(a: int, b: int) -> int {
    if a >= b {
        a - b
    } else {
        b - a
    }
}

/// One transition of the detection state machine, for a pixel at `(x, y)`
/// whose background-subtracted value is `processed`. Returns the next state
/// together with the possibly changed point list and recent list.
pub open spec fn transition_spec(
    state: StateModel,
    processed: int,
    x: int,
    y: int,
    points: Seq<CandidateModel>,
    recent: Seq<int>,
) -> (StateModel, Seq<CandidateModel>, Seq<int>) {
    match state {
        StateModel::Searching => match find_match_spec(points, recent, x) {
            Some(i) => (StateModel::WithinExistingPoint { index: i }, points, recent),
            None => if processed > POINT_THRESHOLD {
                (StateModel::WithinNewPoint { x, y, max_val: processed }, points, recent)
            } else {
                (StateModel::Searching, points, recent)
            },
        },
        StateModel::WithinExistingPoint { index } => {
            if 0 <= index < points.len() && processed > points[index].val {
                (
                    StateModel::WithinExistingPoint { index },
                    points.update(index, CandidateModel { x, y, val: processed }),
                    recent,
                )
            } else if processed > POINT_THRESHOLD {
                (StateModel::WithinExistingPoint { index }, points, recent)
            } else {
                (
                    StateModel::WithinGuard { remaining: POINT_EXCLUSION_RADIUS as int },
                    points,
                    recent,
                )
            }
        },
        StateModel::WithinNewPoint { x: px, y: py, max_val } => {
            if processed > max_val {
                (StateModel::WithinNewPoint { x, y, max_val: processed }, points, recent)
            } else if processed > POINT_THRESHOLD {
                (StateModel::WithinNewPoint { x: px, y: py, max_val }, points, recent)
            } else {
                (
                    StateModel::WithinGuard { remaining: POINT_EXCLUSION_RADIUS as int },
                    points.push(CandidateModel { x: px, y: py, val: max_val }),
                    recent.push(points.len() as int),
                )
            }
        },
        StateModel::WithinGuard { remaining } => {
            if remaining > 0 {
                (StateModel::WithinGuard { remaining: remaining - 1 }, points, recent)
            } else {
                (StateModel::Searching, points, recent)
            }
        },
    }
}

/// Histogram bins after inserting the greyscale values of the `j` pixels
/// starting at pixel offset `base`, into an empty histogram.
pub open spec fn prefill_bins(pixels: Seq<u8>, base: int, j: int) -> Seq<int>
    decreases j,
{
    if j <= 0 {
        Seq::new(256, |v: int| 0int)
    } else {
        incr_bins(prefill_bins(pixels, base, j - 1), grey_at(pixels, 4 * (base + j - 1)))
    }
}

/// Window cache after the row-start prefill at pixel offset `base`.
pub open spec fn prefill_cache(pixels: Seq<u8>, base: int) -> Seq<int> {
    Seq::new(MEDIAN_WINDOW_SIZE as nat, |j: int| grey_at(pixels, 4 * (base + j)))
}

/// One sample added to a bin.
pub open spec fn incr_bins(bins: Seq<int>, v: int) -> Seq<int> {
    bins.update(v, bins[v] + 1)
}

/// One sample removed from a bin.
pub open spec fn decr_bins(bins: Seq<int>, v: int) -> Seq<int> {
    bins.update(v, bins[v] - 1)
}

/// The scan state before the first pixel.
pub open spec fn scan_init() -> ScanModel {
    ScanModel {
        bins: Seq::new(256, |v: int| 0int),
        total: 0,
        cache: Seq::new(MEDIAN_WINDOW_SIZE as nat, |j: int| 0int),
        idx: 0,
        state: StateModel::Searching,
        points: Seq::empty(),
        recent: Seq::empty(),
        x: 0,
        y: 0,
    }
}

/// Processes one pixel: prune the recent list, maintain the sliding median
/// window, subtract the background, step the state machine, and advance the
/// scan position.
pub open spec fn scan_step(m: ScanModel, pixels: Seq<u8>, width: int) -> ScanModel {
    let p = m.y * width + m.x;
    let g = grey_at(pixels, 4 * p);
    let recent1 = prune_recent_spec(m.points, m.recent, m.y);
    let win = if m.x == 0 {
        (prefill_bins(pixels, p, MEDIAN_WINDOW_SIZE as int), MEDIAN_WINDOW_SIZE as int,
        prefill_cache(pixels, p), 0int)
    } else if m.x > MEDIAN_RADIUS && m.x + MEDIAN_RADIUS < width {
        let idx_n = if m.idx + 1 >= MEDIAN_WINDOW_SIZE { 0int } else { m.idx + 1 };
        let removed = m.cache[idx_n];
        (incr_bins(decr_bins(m.bins, removed), g), m.total, m.cache.update(idx_n, g), idx_n)
    } else {
        (m.bins, m.total, m.cache, m.idx)
    };
    let med = median_spec(win.0, win.1);
    let processed = if g >= med { g - med } else { 0int };
    let step = transition_spec(m.state, processed, m.x, m.y, m.points, recent1);
    let xn = if m.x + 1 == width { 0int } else { m.x + 1 };
    let yn = if m.x + 1 == width { m.y + 1 } else { m.y };
    ScanModel {
        bins: win.0,
        total: win.1,
        cache: win.2,
        idx: win.3,
        state: step.0,
        points: step.1,
        recent: step.2,
        x: xn,
        y: yn,
    }
}

/// The scan state after the first `n` pixels have been processed.
pub open spec fn scan_upto(pixels: Seq<u8>, width: int, n: int) -> ScanModel
    decreases n,
{
    if n <= 0 {
        scan_init()
    } else {
        scan_step(scan_upto(pixels, width, n - 1), pixels, width)
    }
}

/// All points a full scan of a `width` by `height` image records. The scan
/// walks the buffer in pixel steps and stops just before the last pixel.
pub open spec fn scan_points(pixels: Seq<u8>, width: int, height: int) -> Seq<CandidateModel> {
    scan_upto(pixels, width, width * height - 1).points
}

/// Well-formedness of the scan state after `n` pixels: the histogram counts
/// exactly the window cache's contents, every stored index is in bounds,
/// and the scan position encodes `n`.
pub open spec fn scan_wf(m: ScanModel, n: int, width: int) -> bool {
    &&& m.bins.len() == 256
    &&& m.cache.len() == MEDIAN_WINDOW_SIZE
    &&& 0 <= m.idx < MEDIAN_WINDOW_SIZE
    &&& (n >= 1 ==> forall|v: int| 0 <= v < 256 ==> m.bins[v] == count_eq(m.cache, v))
    &&& (forall|k: int|
        0 <= k < m.cache.len() ==> 0 <= #[trigger] m.cache[k] && m.cache[k] < 256)
    &&& m.total == if n == 0 {
        0int
    } else {
        MEDIAN_WINDOW_SIZE as int
    }
    &&& (forall|k: int|
        0 <= k < m.recent.len() ==> 0 <= #[trigger] m.recent[k] && m.recent[k]
            < m.points.len())
    &&& (m.state matches StateModel::WithinExistingPoint { index } ==> 0 <= index
        < m.points.len())
    &&& (m.state matches StateModel::WithinGuard { remaining } ==> 0 <= remaining
        <= POINT_EXCLUSION_RADIUS)
    &&& (m.state matches StateModel::WithinNewPoint { x, y, max_val } ==> 0 <= x && 0 <= y && 0
        <= max_val < 256)
    &&& 0 <= m.x < width
    &&& 0 <= m.y
    &&& m.y * width + m.x == n
    &&& (forall|i: int|
        0 <= i < m.points.len() ==> 0 <= (#[trigger] m.points[i]).x && 0 <= m.points[i].y && 0
            <= m.points[i].val < 256)
}

/// The greyscale value always lies in the intensity range.
pub proof fn lemma_grey_at_range(pixels: Seq<u8>, i: int)
    ensures
        0 <= grey_at(pixels, i) < 256,
{
}

/// The prefill histogram counts exactly the first `j` prefilled cache slots.
pub proof fn lemma_prefill_counts(pixels: Seq<u8>, base: int, j: int)
    requires
        0 <= j <= MEDIAN_WINDOW_SIZE,
    ensures
        prefill_bins(pixels, base, j).len() == 256,
        forall|v: int|
            0 <= v < 256 ==> #[trigger] prefill_bins(pixels, base, j)[v] == count_eq(
                prefill_cache(pixels, base).take(j),
                v,
            ),
    decreases j,
{
    let c = prefill_cache(pixels, base);
    if j > 0 {
        lemma_prefill_counts(pixels, base, j - 1);
        assert(c.take(j).drop_last() =~= c.take(j - 1));
        assert(c.take(j).last() == grey_at(pixels, 4 * (base + j - 1)));
        lemma_grey_at_range(pixels, 4 * (base + j - 1));
    }
}

/// Pruning drops entries only from the front: the result is a suffix.
pub proof fn lemma_prune_suffix(points: Seq<CandidateModel>, recent: Seq<int>, y: int)
    ensures
        prune_recent_spec(points, recent, y).len() <= recent.len(),
        forall|k: int|
            0 <= k < prune_recent_spec(points, recent, y).len()
                ==> #[trigger] prune_recent_spec(points, recent, y)[k] == recent[k + (
            recent.len() - prune_recent_spec(points, recent, y).len())],
    decreases recent.len(),
{
    if recent.len() > 0 && 0 <= recent[0] < points.len() && points[recent[0]].y < y
        - POINT_EXCLUSION_RADIUS {
        lemma_prune_suffix(points, recent.drop_first(), y);
    }
}

/// A found match is an in-bounds point index.
pub proof fn lemma_find_in_bounds(points: Seq<CandidateModel>, recent: Seq<int>, x: int)
    ensures
        find_match_spec(points, recent, x) matches Some(i) ==> 0 <= i < points.len(),
    decreases recent.len(),
{
    if recent.len() > 0 && !(0 <= recent[0] < points.len() && abs_diff(points[recent[0]].x, x)
        < POINT_EXCLUSION_RADIUS) {
        lemma_find_in_bounds(points, recent.drop_first(), x);
    }
}

/// One scan step preserves well-formedness.
pub proof fn lemma_scan_step_wf(m: ScanModel, pixels: Seq<u8>, width: int, n: int)
    requires
        scan_wf(m, n, width),
        width >= MEDIAN_WINDOW_SIZE,
        n >= 0,
    ensures
        scan_wf(scan_step(m, pixels, width), n + 1, width),
{
    let p = m.y * width + m.x;
    let g = grey_at(pixels, 4 * p);
    lemma_grey_at_range(pixels, 4 * p);
    let m2 = scan_step(m, pixels, width);
    crate::hist::lemma_median_range(m2.bins, m2.total);
    // The sliding window stays a histogram of the cache.
    if m.x == 0 {
        lemma_prefill_counts(pixels, p, MEDIAN_WINDOW_SIZE as int);
        assert(prefill_cache(pixels, p).take(MEDIAN_WINDOW_SIZE as int) =~= prefill_cache(
            pixels,
            p,
        ));
    } else if m.x > MEDIAN_RADIUS && m.x + MEDIAN_RADIUS < width {
        let idx_n = if m.idx + 1 >= MEDIAN_WINDOW_SIZE {
            0int
        } else {
            m.idx + 1
        };
        let removed = m.cache[idx_n];
        assert forall|v: int| 0 <= v < 256 implies #[trigger] m2.bins[v] == count_eq(m2.cache, v)
            by {
            crate::hist::lemma_count_eq_update(m.cache, idx_n, g, v);
        }
    }
    // Pruning keeps indices in bounds.
    lemma_prune_suffix(m.points, m.recent, m.y);
    // A match found while searching is in bounds.
    lemma_find_in_bounds(m.points, prune_recent_spec(m.points, m.recent, m.y), m.x);
    // The scan position advances by exactly one pixel.
    if m.x + 1 == width {
        assert((m.y + 1) * width == m.y * width + width) by (nonlinear_arith);
    }
}

/// The scan state is well-formed after any number of processed pixels.
pub proof fn lemma_scan_upto_wf(pixels: Seq<u8>, width: int, n: int)
    requires
        width >= MEDIAN_WINDOW_SIZE,
        n >= 0,
    ensures
        scan_wf(scan_upto(pixels, width, n), n, width),
    decreases n,
{
    if n == 0 {
    } else {
        lemma_scan_upto_wf(pixels, width, n - 1);
        lemma_scan_step_wf(scan_upto(pixels, width, n - 1), pixels, width, n - 1);
    }
}

} // verus!
