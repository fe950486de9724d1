//! The executable scanner: a single left-to-right, top-to-bottom pass that
//! follows the mathematical scan model pixel for pixel.

use vstd::prelude::*;
use crate::hist::HistSet;
use crate::model::{
    find_match_spec, prefill_bins, prefill_cache, prune_recent_spec, scan_points, scan_step,
    scan_upto, transition_spec, CandidateModel, StateModel,
};
use crate::{
    cache_view, get_greyscale_value, grey_at, points_view, recent_view, QueryPointCandidate,
    ScanError, MEDIAN_RADIUS, MEDIAN_WINDOW_SIZE, POINT_EXCLUSION_RADIUS, POINT_THRESHOLD,
};

verus! {

/// The detector's state during the scan.
enum State {
    Searching,
    WithinNewPoint { x: u32, y: u32, max_val: u8 },
    WithinExistingPoint(usize),
    WithinGuard(usize),
}

impl View for State {
    type V = StateModel;

    closed spec fn view(&self) -> StateModel {
        match self {
            State::Searching => StateModel::Searching,
            State::WithinNewPoint { x, y, max_val } => StateModel::WithinNewPoint {
                x: *x as int,
                y: *y as int,
                max_val: *max_val as int,
            },
            State::WithinExistingPoint(index) => StateModel::WithinExistingPoint {
                index: *index as int,
            },
            State::WithinGuard(remaining) => StateModel::WithinGuard {
                remaining: *remaining as int,
            },
        }
    }
}

/// Drops recent entries from the front while their point's row lies more
/// than the exclusion radius above the current row.
fn prune_recent(points: &Vec<QueryPointCandidate>, recent: &mut Vec<usize>, y: u32)
    requires
        forall|k: int|
            0 <= k < old(recent)@.len() ==> (#[trigger] old(recent)@[k]) < points@.len(),
    ensures
        recent_view(final(recent)@) == prune_recent_spec(
            points_view(points@),
            recent_view(old(recent)@),
            y as int,
        ),
        forall|k: int| 0 <= k < final(recent)@.len() ==> (#[trigger] final(recent)@[k]) < points@.len(),
{
    let limit = y.saturating_sub(POINT_EXCLUSION_RADIUS);
    while recent.len() > 0 && points[recent[0]].y < limit
        invariant
            forall|k: int| 0 <= k < recent@.len() ==> (#[trigger] recent@[k]) < points@.len(),
            prune_recent_spec(points_view(points@), recent_view(recent@), y as int)
                == prune_recent_spec(points_view(points@), recent_view(old(recent)@), y as int),
            limit == y.saturating_sub(POINT_EXCLUSION_RADIUS),
        decreases recent@.len(),
    {
        let ghost prev = recent@;
        proof {
            assert(recent_view(prev)[0] == prev[0] as int);
            assert(points_view(points@)[prev[0] as int] == points@[prev[0] as int]@);
        }
        recent.remove(0);
        proof {
            assert(recent_view(recent@) =~= recent_view(prev).drop_first());
        }
    }
}

/// Returns the first recent entry whose point's column is within the
/// exclusion radius of `x`, searching in list order.
fn find_matching_point(points: &Vec<QueryPointCandidate>, recent: &Vec<usize>, x: u32) -> (r:
    Option<usize>)
    requires
        forall|k: int| 0 <= k < recent@.len() ==> (#[trigger] recent@[k]) < points@.len(),
    ensures
        match r {
            Some(i) => find_match_spec(points_view(points@), recent_view(recent@), x as int)
                == Some(i as int) && (i as int) < points@.len(),
            None => find_match_spec(points_view(points@), recent_view(recent@), x as int)
                is None,
        },
{
    let ghost pv = points_view(points@);
    let ghost rv = recent_view(recent@);
    proof {
        assert(rv.skip(0) =~= rv);
    }
    let mut k: usize = 0;
    while k < recent.len()
        invariant
            k <= recent@.len(),
            forall|j: int| 0 <= j < recent@.len() ==> (#[trigger] recent@[j]) < points@.len(),
            pv == points_view(points@),
            rv == recent_view(recent@),
            find_match_spec(pv, rv, x as int) == find_match_spec(
                pv,
                rv.skip(k as int),
                x as int,
            ),
        decreases recent@.len() - k,
    {
        let index = recent[k];
        let p_x = points[index].x;
        let d = if p_x >= x {
            p_x - x
        } else {
            x - p_x
        };
        proof {
            assert(rv.skip(k as int)[0] == recent@[k as int] as int);
            assert(pv[index as int] == points@[index as int]@);
            assert(rv.skip(k as int).drop_first() =~= rv.skip(k as int + 1));
        }
        if d < POINT_EXCLUSION_RADIUS {
            return Some(index);
        }
        k = k + 1;
    }
    proof {
        assert(rv.skip(k as int) =~= Seq::<int>::empty());
    }
    None
}

/// Resets the histogram and refills it, together with the window cache, from
/// the greyscale values of the pixels starting at pixel offset `p`.
fn row_prefill(pixels: &Vec<u8>, p: usize, hist: &mut HistSet, cache: &mut Vec<u8>)
    requires
        4 * (p + MEDIAN_WINDOW_SIZE - 1) + 2 < pixels.len(),
        old(cache)@.len() == MEDIAN_WINDOW_SIZE,
    ensures
        final(hist).wf(),
        final(hist).bins() == prefill_bins(pixels@, p as int, MEDIAN_WINDOW_SIZE as int),
        final(hist).total() == MEDIAN_WINDOW_SIZE as int,
        final(cache)@.len() == MEDIAN_WINDOW_SIZE,
        cache_view(final(cache)@) == prefill_cache(pixels@, p as int),
    {
    *hist = HistSet::new();
    proof {
        assert(hist.bins() =~= prefill_bins(pixels@, p as int, 0));
    }
    let mut j: usize = 0;
    while j < MEDIAN_WINDOW_SIZE
        invariant
            j <= MEDIAN_WINDOW_SIZE,
            4 * (p + MEDIAN_WINDOW_SIZE - 1) + 2 < pixels.len(),
            hist.wf(),
            hist.total() == j,
            hist.bins() == prefill_bins(pixels@, p as int, j as int),
            cache@.len() == MEDIAN_WINDOW_SIZE,
            forall|jj: int|
                0 <= jj < j ==> (#[trigger] cache@[jj]) as int == grey_at(
                    pixels@,
                    4 * (p + jj),
                ),
        decreases MEDIAN_WINDOW_SIZE - j,
    {
        let g = get_greyscale_value(pixels, 4 * (p + j));
        cache[j] = g;
        hist.incr(g);
        j = j + 1;
    }
    proof {
        assert(cache_view(cache@) =~= prefill_cache(pixels@, p as int));
    }
}

/// Scans a row-major RGBA byte buffer and returns every detected bright
/// point, in discovery order. The buffer must hold exactly `width * height`
/// four-byte pixels, and the image must be at least as wide as the sliding
/// median window; otherwise the matching error comes back and nothing is
/// scanned.
pub fn process_image(pixels: &Vec<u8>, width: u32, height: u32) -> (r: Result<
    Vec<QueryPointCandidate>,
    ScanError,
>)
    ensures
        pixels@.len() != width * height * 4 ==> r == Err::<Vec<QueryPointCandidate>, ScanError>(
            ScanError::InvalidBuffer,
        ),
        pixels@.len() == width * height * 4 && width < MEDIAN_WINDOW_SIZE ==> r == Err::<
            Vec<QueryPointCandidate>,
            ScanError,
        >(ScanError::ImageTooNarrow),
        pixels@.len() == width * height * 4 && width >= MEDIAN_WINDOW_SIZE ==> r is Ok
            && points_view(r->Ok_0@) == scan_points(pixels@, width as int, height as int),
{
    proof {
        assert((width as int) * (height as int) < 0x10000000000000000) by (nonlinear_arith)
            requires
                width < 0x100000000,
                height < 0x100000000,
        ;
    }
    if (pixels.len() as u128) != (width as u128) * (height as u128) * 4 {
        return Err(ScanError::InvalidBuffer);
    }
    if width < MEDIAN_WINDOW_SIZE as u32 {
        return Err(ScanError::ImageTooNarrow);
    }
    let mut points: Vec<QueryPointCandidate> = Vec::new();
    let mut recent_points: Vec<usize> = Vec::new();
    if height == 0 {
        proof {
            assert(points_view(points@) =~= scan_points(
                pixels@,
                width as int,
                height as int,
            ));
        }
        return Ok(points);
    }
    let total_px = pixels.len() / 4;
    proof {
        assert(width as int * height as int >= width as int) by (nonlinear_arith)
            requires
                height >= 1,
                width >= 0,
        ;
    }
    let end_px = total_px - 1;

    let mut cache: Vec<u8> = Vec::new();
    let mut k: usize = 0;
    while k < MEDIAN_WINDOW_SIZE
        invariant
            k <= MEDIAN_WINDOW_SIZE,
            cache@.len() == k,
            forall|j: int| 0 <= j < k ==> cache@[j] == 0u8,
        decreases MEDIAN_WINDOW_SIZE - k,
    {
        cache.push(0);
        k = k + 1;
    }

    let mut idx: usize = 0;
    let mut hist: HistSet = HistSet::new();
    let mut state: State = State::Searching;
    let mut x: u32 = 0;
    let mut y: u32 = 0;
    let mut p: usize = 0;
    proof {
        assert(hist.bins() =~= scan_upto(pixels@, width as int, 0).bins);
        assert(cache_view(cache@) =~= scan_upto(pixels@, width as int, 0).cache);
        assert(points_view(points@) =~= scan_upto(pixels@, width as int, 0).points);
        assert(recent_view(recent_points@) =~= scan_upto(pixels@, width as int, 0).recent);
    }
    while p < end_px
        invariant
            width >= MEDIAN_WINDOW_SIZE,
            height >= 1,
            pixels.len() == 4 * total_px,
            total_px == width * height,
            end_px == total_px - 1,
            p <= end_px,
            hist.wf(),
            hist.bins() == scan_upto(pixels@, width as int, p as int).bins,
            hist.total() == scan_upto(pixels@, width as int, p as int).total,
            cache@.len() == MEDIAN_WINDOW_SIZE,
            cache_view(cache@) == scan_upto(pixels@, width as int, p as int).cache,
            idx as int == scan_upto(pixels@, width as int, p as int).idx,
            state@ == scan_upto(pixels@, width as int, p as int).state,
            points_view(points@) == scan_upto(pixels@, width as int, p as int).points,
            recent_view(recent_points@) == scan_upto(pixels@, width as int, p as int).recent,
            x as int == scan_upto(pixels@, width as int, p as int).x,
            y as int == scan_upto(pixels@, width as int, p as int).y,
        decreases end_px - p,
    {
        let ghost m = scan_upto(pixels@, width as int, p as int);
        proof {
            crate::model::lemma_scan_upto_wf(pixels@, width as int, p as int);
            assert((y as int) < (height as int)) by (nonlinear_arith)
                requires
                    m.y * width + m.x == p,
                    y as int == m.y,
                    0 <= m.x < width,
                    0 <= m.y,
                    p <= width as int * height as int - 2,
                    width >= 1,
                    height >= 1,
            ;
        }
        let ghost m2 = scan_step(m, pixels@, width as int);
        let i = 4 * p;
        let g = get_greyscale_value(pixels, i);
        proof {
            assert forall|kk: int|
                0 <= kk < recent_points@.len() implies (#[trigger] recent_points@[kk])
                < points@.len() by {
                assert(recent_view(recent_points@)[kk] == recent_points@[kk] as int);
            }
        }
        prune_recent(&points, &mut recent_points, y);
        let ghost recent1 = recent_view(recent_points@);

        if x == 0 {
            proof {
                assert(m.y * width + (MEDIAN_WINDOW_SIZE - 1) < width as int * height as int)
                    by (nonlinear_arith)
                    requires
                        0 <= m.y,
                        m.y < height as int,
                        width as int >= MEDIAN_WINDOW_SIZE,
                ;
            }
            row_prefill(pixels, p, &mut hist, &mut cache);
            idx = 0;
        } else if x > MEDIAN_RADIUS as u32 && x < width - MEDIAN_RADIUS as u32 {
            idx = idx + 1;
            if idx >= MEDIAN_WINDOW_SIZE {
                idx = 0;
            }
            let removed = cache[idx];
            proof {
                assert(cache_view(cache@)[idx as int] == removed as int);
                crate::hist::lemma_count_eq_ge_one(cache_view(cache@), idx as int);
            }
            hist.decr(removed);
            cache[idx] = g;
            hist.incr(g);
            proof {
                assert(cache_view(cache@) =~= m.cache.update(idx as int, g as int));
            }
        }
        proof {
            assert(hist.bins() == m2.bins);
            assert(hist.total() == m2.total);
            assert(cache_view(cache@) == m2.cache);
            assert(idx as int == m2.idx);
        }

        let med = hist.median();
        let processed = if g >= med {
            g - med
        } else {
            0
        };
        let ghost ts = transition_spec(
            m.state,
            processed as int,
            m.x,
            m.y,
            m.points,
            recent1,
        );

        state = match state {
            State::Searching => {
                let matching_point = find_matching_point(&points, &recent_points, x);
                match matching_point {
                    Some(index) => State::WithinExistingPoint(index),
                    None => {
                        if processed > POINT_THRESHOLD {
                            State::WithinNewPoint { x, y, max_val: processed }
                        } else {
                            State::Searching
                        }
                    },
                }
            },
            State::WithinExistingPoint(index) => {
                proof {
                    assert(points_view(points@)[index as int] == points@[index as int]@);
                }
                let val = points[index].val;
                if processed > val {
                    points[index] = QueryPointCandidate { x, y, val: processed };
                    proof {
                        assert(points_view(points@) =~= m.points.update(
                            index as int,
                            CandidateModel { x: x as int, y: y as int, val: processed as int },
                        ));
                    }
                    State::WithinExistingPoint(index)
                } else if processed > POINT_THRESHOLD {
                    State::WithinExistingPoint(index)
                } else {
                    State::WithinGuard(POINT_EXCLUSION_RADIUS as usize)
                }
            },
            State::WithinNewPoint { x: pt_x, y: pt_y, max_val } => {
                if processed > max_val {
                    State::WithinNewPoint { x, y, max_val: processed }
                } else if processed > POINT_THRESHOLD {
                    State::WithinNewPoint { x: pt_x, y: pt_y, max_val }
                } else {
                    points.push(QueryPointCandidate { x: pt_x, y: pt_y, val: max_val });
                    recent_points.push(points.len() - 1);
                    proof {
                        assert(points_view(points@) =~= m.points.push(
                            CandidateModel {
                                x: pt_x as int,
                                y: pt_y as int,
                                val: max_val as int,
                            },
                        ));
                        assert(recent_view(recent_points@) =~= recent1.push(
                            m.points.len() as int,
                        ));
                    }
                    State::WithinGuard(POINT_EXCLUSION_RADIUS as usize)
                }
            },
            State::WithinGuard(remaining) => {
                if remaining > 0 {
                    State::WithinGuard(remaining - 1)
                } else {
                    State::Searching
                }
            },
        };
        proof {
            assert(state@ == ts.0);
            assert(points_view(points@) == ts.1);
            assert(recent_view(recent_points@) == ts.2);
        }

        if x + 1 == width {
            x = 0;
            y = y + 1;
        } else {
            x = x + 1;
        }
        p = p + 1;
        proof {
            assert(scan_upto(pixels@, width as int, p as int) == m2);
        }
    }
    proof {
        assert(points_view(points@) == scan_points(pixels@, width as int, height as int));
    }
    Ok(points)
}

} // verus!
