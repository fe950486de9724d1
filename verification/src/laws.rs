//! Laws of the scanner, proved against the scan model: the row reset of the
//! median window, the absence of detections on a uniform image, the exact
//! guard countdown, and the fact that points are recorded only when a new
//! blob closes.

use vstd::prelude::*;
use crate::hist::{
    count_eq, lemma_median_characterization, lemma_sum_prefix_zero, median_spec, sum_prefix,
};
use crate::model::{
    prefill_bins, prefill_cache, scan_points, scan_step, scan_upto, CandidateModel, ScanModel,
    StateModel,
};
use crate::{grey_at, grey_at_px, MEDIAN_WINDOW_SIZE};

verus! {

/// Row reset: processing a pixel in column 0 rebuilds the histogram and the
/// window cache from exactly `MEDIAN_WINDOW_SIZE` fresh samples read at the
/// row's start, whatever residual state the previous row left behind.
pub proof fn lemma_row_reset(pixels: Seq<u8>, width: int, n: int)
    requires
        width >= MEDIAN_WINDOW_SIZE,
        n >= 0,
        scan_upto(pixels, width, n).x == 0,
    ensures
        scan_upto(pixels, width, n + 1).total == MEDIAN_WINDOW_SIZE,
        scan_upto(pixels, width, n + 1).bins == prefill_bins(
            pixels,
            n,
            MEDIAN_WINDOW_SIZE as int,
        ),
        scan_upto(pixels, width, n + 1).cache == prefill_cache(pixels, n),
        forall|v: int|
            0 <= v < 256 ==> scan_upto(pixels, width, n + 1).bins[v] == count_eq(
                prefill_cache(pixels, n),
                v,
            ),
{
    crate::model::lemma_scan_upto_wf(pixels, width, n);
    crate::model::lemma_scan_step_wf(scan_upto(pixels, width, n), pixels, width, n);
}

/// The histogram of a window whose samples all equal `c`.
pub open spec fn uniform_bins(c: int) -> Seq<int> {
    Seq::new(256, |v: int| if v == c { MEDIAN_WINDOW_SIZE as int } else { 0int })
}

/// The median of a window whose samples all equal `c` is `c` itself.
pub proof fn lemma_uniform_median(c: int)
    requires
        0 <= c < 256,
    ensures
        median_spec(uniform_bins(c), MEDIAN_WINDOW_SIZE as int) == c,
{
    let bins = uniform_bins(c);
    assert forall|j: int| 0 <= j <= c implies #[trigger] sum_prefix(bins, j) == 0 by {
        lemma_sum_prefix_zero(bins, j);
    }
    assert(sum_prefix(bins, c) == 0) by {
        lemma_sum_prefix_zero(bins, c);
    }
    assert(sum_prefix(bins, c + 1) == sum_prefix(bins, c) + bins[c]);
    assert(sum_prefix(bins, c + 1) == MEDIAN_WINDOW_SIZE);
    assert(2 * sum_prefix(bins, 256) >= MEDIAN_WINDOW_SIZE) by {
        crate::hist::lemma_sum_prefix_nonneg_mono(bins, c + 1, 256);
    }
    lemma_median_characterization(bins, MEDIAN_WINDOW_SIZE as int);
    let med = median_spec(bins, MEDIAN_WINDOW_SIZE as int);
    if med < c {
        crate::hist::lemma_sum_prefix_zero(bins, med + 1);
    } else if med > c {
        assert(2 * sum_prefix(bins, c + 1) < MEDIAN_WINDOW_SIZE);
    }
}

/// The prefill of a stretch of pixels whose greyscale values all equal `c`
/// is the uniform histogram and the constant cache.
proof fn lemma_prefill_uniform(pixels: Seq<u8>, base: int, j: int, c: int)
    requires
        0 <= c < 256,
        0 <= j <= MEDIAN_WINDOW_SIZE,
        forall|k: int| base <= k < base + j ==> #[trigger] grey_at_px(pixels, k) == c,
    ensures
        prefill_bins(pixels, base, j) == Seq::new(
            256,
            |v: int| if v == c { j } else { 0int },
        ),
    decreases j,
{
    if j == 0 {
        assert(prefill_bins(pixels, base, 0) =~= Seq::new(
            256,
            |v: int| if v == c { 0int } else { 0int },
        ));
        assert(Seq::new(256, |v: int| if v == c { 0int } else { 0int }) =~= Seq::new(
            256,
            |v: int| if v == c { j } else { 0int },
        ));
    } else {
        lemma_prefill_uniform(pixels, base, j - 1, c);
        assert(grey_at_px(pixels, base + j - 1) == c);
        assert(grey_at(pixels, 4 * (base + j - 1)) == c);
        assert(prefill_bins(pixels, base, j) =~= Seq::new(
            256,
            |v: int| if v == c { j } else { 0int },
        ));
    }
}

/// The scan invariant on a uniform image: the detector never leaves the
/// searching state and records nothing.
proof fn lemma_uniform_invariant(pixels: Seq<u8>, width: int, height: int, c: int, n: int)
    requires
        width >= MEDIAN_WINDOW_SIZE,
        height >= 1,
        0 <= c < 256,
        forall|k: int| 0 <= k < width * height ==> #[trigger] grey_at_px(pixels, k) == c,
        0 <= n <= width * height - 1,
    ensures
        scan_upto(pixels, width, n).points =~= Seq::<CandidateModel>::empty(),
        scan_upto(pixels, width, n).recent =~= Seq::<int>::empty(),
        scan_upto(pixels, width, n).state == StateModel::Searching,
        n >= 1 ==> scan_upto(pixels, width, n).bins == uniform_bins(c),
        n >= 1 ==> scan_upto(pixels, width, n).cache =~= Seq::new(
            MEDIAN_WINDOW_SIZE as nat,
            |jj: int| c,
        ),
    decreases n,
{
    if n > 0 {
        lemma_uniform_invariant(pixels, width, height, c, n - 1);
        let m = scan_upto(pixels, width, n - 1);
        crate::model::lemma_scan_upto_wf(pixels, width, n - 1);
        let p = m.y * width + m.x;
        assert(p == n - 1);
        assert(grey_at_px(pixels, p) == c);
        assert(grey_at(pixels, 4 * p) == c);
        if m.x == 0 {
            assert((m.y as int) < height) by (nonlinear_arith)
                requires
                    m.y * width + m.x == n - 1,
                    0 <= m.x < width,
                    0 <= m.y,
                    n - 1 <= width * height - 2,
                    width >= 1,
                    height >= 1,
            ;
            assert(p + MEDIAN_WINDOW_SIZE - 1 < width * height) by (nonlinear_arith)
                requires
                    p == m.y * width,
                    0 <= m.y,
                    m.y < height,
                    width >= MEDIAN_WINDOW_SIZE,
            ;
            assert(forall|k: int| p <= k < p + MEDIAN_WINDOW_SIZE ==> #[trigger] grey_at_px(
                pixels,
                k,
            ) == c);
            lemma_prefill_uniform(pixels, p, MEDIAN_WINDOW_SIZE as int, c);
            assert(prefill_bins(pixels, p, MEDIAN_WINDOW_SIZE as int) =~= uniform_bins(c));
            assert forall|jj: int| 0 <= jj < MEDIAN_WINDOW_SIZE implies prefill_cache(
                pixels,
                p,
            )[jj] == c by {
                assert(grey_at_px(pixels, p + jj) == c);
            }
            assert(prefill_cache(pixels, p) =~= Seq::new(
                MEDIAN_WINDOW_SIZE as nat,
                |jj: int| c,
            ));
        } else if m.x > crate::MEDIAN_RADIUS && m.x + crate::MEDIAN_RADIUS < width {
            let idx_n = if m.idx + 1 >= MEDIAN_WINDOW_SIZE {
                0int
            } else {
                m.idx + 1
            };
            assert(m.cache[idx_n] == c);
            assert(scan_step(m, pixels, width).bins =~= uniform_bins(c));
            assert(scan_step(m, pixels, width).cache =~= Seq::new(
                MEDIAN_WINDOW_SIZE as nat,
                |jj: int| c,
            ));
        }
        lemma_uniform_median(c);
        assert(scan_step(m, pixels, width).state == StateModel::Searching);
        assert(scan_upto(pixels, width, n) == scan_step(m, pixels, width));
    }
}

/// Uniform image, no detections: a scan of an image whose every pixel has
/// the same greyscale value records no point at all, whatever that value is.
pub proof fn lemma_uniform_no_detections(pixels: Seq<u8>, width: int, height: int, c: int)
    requires
        width >= MEDIAN_WINDOW_SIZE,
        height >= 1,
        0 <= c < 256,
        forall|k: int| 0 <= k < width * height ==> #[trigger] grey_at_px(pixels, k) == c,
    ensures
        scan_points(pixels, width, height).len() == 0,
{
    assert(width * height >= width) by (nonlinear_arith)
        requires
            height >= 1,
            width >= 0,
    ;
    lemma_uniform_invariant(pixels, width, height, c, width * height - 1);
}

/// Guard suppression: while the guard is counting down, the state stays in
/// the guard with an exactly decremented counter and nothing is recorded.
pub proof fn lemma_guard_suppression(pixels: Seq<u8>, width: int, n: int, rem: int, k: int)
    requires
        n >= 0,
        0 <= k <= rem,
        scan_upto(pixels, width, n).state == (StateModel::WithinGuard { remaining: rem }),
    ensures
        scan_upto(pixels, width, n + k).state == (StateModel::WithinGuard {
            remaining: rem - k,
        }),
        scan_upto(pixels, width, n + k).points == scan_upto(pixels, width, n).points,
    decreases k,
{
    if k > 0 {
        lemma_guard_suppression(pixels, width, n, rem, k - 1);
        assert(scan_upto(pixels, width, n + k) == scan_step(
            scan_upto(pixels, width, n + k - 1),
            pixels,
            width,
        ));
    }
}

/// The guard countdown is exact: a guard of `rem` remaining pixels ends in
/// the searching state exactly `rem + 1` pixels later, with no point
/// recorded in between.
pub proof fn lemma_guard_ends(pixels: Seq<u8>, width: int, n: int, rem: int)
    requires
        n >= 0,
        rem >= 0,
        scan_upto(pixels, width, n).state == (StateModel::WithinGuard { remaining: rem }),
    ensures
        scan_upto(pixels, width, n + rem + 1).state == StateModel::Searching,
        scan_upto(pixels, width, n + rem + 1).points == scan_upto(pixels, width, n).points,
{
    lemma_guard_suppression(pixels, width, n, rem, rem);
    assert(scan_upto(pixels, width, n + rem + 1) == scan_step(
        scan_upto(pixels, width, n + rem),
        pixels,
        width,
    ));
}

/// Points are recorded only when a tracked new blob closes: one scan step
/// either leaves the point list's length unchanged, or appends exactly the
/// running maximum of a `WithinNewPoint` whose signal fell to the threshold
/// or below. In particular the end of the scan appends nothing: a blob still
/// open at the last scanned pixel is discarded.
pub proof fn lemma_points_append_only(m: ScanModel, pixels: Seq<u8>, width: int)
    ensures
        scan_step(m, pixels, width).points.len() >= m.points.len(),
        scan_step(m, pixels, width).points.len() > m.points.len() ==> (m.state matches
            StateModel::WithinNewPoint { x, y, max_val } && scan_step(m, pixels, width).points
            == m.points.push(CandidateModel { x, y, val: max_val }) && scan_step(
            m,
            pixels,
            width,
        ).state == (StateModel::WithinGuard {
            remaining: crate::POINT_EXCLUSION_RADIUS as int,
        })),
{
}

} // verus!