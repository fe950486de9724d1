//! Streaming bright-point detector for raster images.
//!
//! The scanner walks a row-major RGBA byte buffer once, left to right and top
//! to bottom. For each pixel it computes a greyscale intensity, estimates the
//! local background as the median of a sliding horizontal window (kept in a
//! counting histogram), subtracts the background, and feeds the resulting
//! contrast signal to a four-state machine that opens, merges, closes and
//! guards blob candidates. One record per detected point comes out, in
//! discovery order.

use vstd::prelude::*;

pub mod hist;
pub mod laws;
pub mod model;
pub mod scan;

pub use crate::scan::process_image;

verus! {

/// Horizontal distance (in pixels) under which two detections merge, and the
/// length of the guard period after a blob closes.
pub const POINT_EXCLUSION_RADIUS: u32 = 20;

/// Minimum background-subtracted intensity considered "bright".
pub const POINT_THRESHOLD: u8 = 75;

/// Half-width of the sliding median window.
pub const MEDIAN_RADIUS: usize = 40;

/// Full width of the sliding median window.
pub const MEDIAN_WINDOW_SIZE: usize = MEDIAN_RADIUS * 2 + 1;

/// Greyscale intensity of the pixel whose first channel byte sits at offset
/// `i`: the truncated mean of the three colour channels, clamped to 255.
/// The clamp can never fire (each channel is at most 255) but is kept for
/// numeric fidelity.
pub open spec fn grey_at(pixels: Seq<u8>, i: int) -> int {
    let s = (pixels[i] + pixels[i + 1] + pixels[i + 2]) / 3;
    if s > 255 { 255 } else { s }
}

/// Greyscale intensity of pixel number `p` of a four-channel buffer.
pub open spec fn grey_at_px(pixels: Seq<u8>, p: int) -> int {
    grey_at(pixels, 4 * p)
}

/// Reads the greyscale value of the pixel whose R,G,B,A bytes start at `i`.
pub fn get_greyscale_value(pixels: &Vec<u8>, i: usize) -> (r: u8)
    requires
        i + 2 < pixels.len(),
    ensures
        r == grey_at(pixels@, i as int),
{
    let r_val = pixels[i] as u32;
    let g_val = pixels[i + 1] as u32;
    let b_val = pixels[i + 2] as u32;
    let s = (r_val + g_val + b_val) / 3;
    let m = if s > 255 { 255 } else { s };
    m as u8
}

/// One detected bright point: its column, row, and peak background-subtracted
/// intensity.
#[derive(Clone, Copy, PartialEq, Eq, Structural, Debug)]
pub struct QueryPointCandidate {
    pub x: u32,
    pub y: u32,
    pub val: u8,
}

impl View for QueryPointCandidate {
    type V = crate::model::CandidateModel;

    open spec fn view(&self) -> crate::model::CandidateModel {
        crate::model::CandidateModel { x: self.x as int, y: self.y as int, val: self.val as int }
    }
}

/// Why a scan request was rejected before any pixel was processed.
#[derive(Clone, Copy, PartialEq, Eq, Structural, Debug)]
pub enum ScanError {
    /// The buffer length does not equal `width * height * 4`.
    InvalidBuffer,
    /// The image is narrower than the sliding median window.
    ImageTooNarrow,
}

/// The recorded points as model values.
pub open spec fn points_view(points: Seq<QueryPointCandidate>) -> Seq<
    crate::model::CandidateModel,
> {
    points.map_values(|c: QueryPointCandidate| c@)
}

/// The recent-point indices as mathematical integers.
pub open spec fn recent_view(recent: Seq<usize>) -> Seq<int> {
    recent.map_values(|i: usize| i as int)
}

/// The window cache's greyscale values as mathematical integers.
pub open spec fn cache_view(cache: Seq<u8>) -> Seq<int> {
    cache.map_values(|v: u8| v as int)
}

} // verus!
