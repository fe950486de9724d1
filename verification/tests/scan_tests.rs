use point_scan::{get_greyscale_value, process_image, QueryPointCandidate, ScanError};

/// Builds a width-by-height RGBA buffer of one constant colour.
fn make_image(width: usize, height: usize, rgb: (u8, u8, u8)) -> Vec<u8> {
    let mut buf: Vec<u8> = Vec::with_capacity(width * height * 4);
    for _ in 0..width * height {
        buf.push(rgb.0);
        buf.push(rgb.1);
        buf.push(rgb.2);
        buf.push(255);
    }
    buf
}

/// Overwrites one pixel's colour.
fn set_px(buf: &mut Vec<u8>, width: usize, x: usize, y: usize, rgb: (u8, u8, u8)) {
    let i = (y * width + x) * 4;
    buf[i] = rgb.0;
    buf[i + 1] = rgb.1;
    buf[i + 2] = rgb.2;
}

/// Overwrites a horizontal run of pixels on one row.
fn set_run(buf: &mut Vec<u8>, width: usize, x0: usize, x1: usize, y: usize, rgb: (u8, u8, u8)) {
    for x in x0..=x1 {
        set_px(buf, width, x, y, rgb);
    }
}

fn pt(x: u32, y: u32, val: u8) -> QueryPointCandidate {
    QueryPointCandidate { x, y, val }
}

#[test]
fn greyscale_is_truncated_mean() {
    let buf = vec![10, 20, 33, 255, 255, 255, 255, 255];
    assert_eq!(get_greyscale_value(&buf, 0), 21);
    assert_eq!(get_greyscale_value(&buf, 4), 255);
}

#[test]
fn wrong_buffer_length_is_rejected() {
    let mut buf = make_image(100, 2, (50, 50, 50));
    buf.push(0);
    assert_eq!(process_image(&buf, 100, 2), Err(ScanError::InvalidBuffer));
}

#[test]
fn mismatched_dimensions_are_rejected() {
    let buf = make_image(100, 2, (50, 50, 50));
    assert_eq!(process_image(&buf, 100, 3), Err(ScanError::InvalidBuffer));
}

#[test]
fn narrow_image_is_rejected() {
    let buf = make_image(80, 2, (50, 50, 50));
    assert_eq!(process_image(&buf, 80, 2), Err(ScanError::ImageTooNarrow));
}

#[test]
fn empty_image_yields_no_points() {
    let buf: Vec<u8> = Vec::new();
    assert_eq!(process_image(&buf, 100, 0), Ok(vec![]));
}

#[test]
fn uniform_grey_image_yields_no_points() {
    let buf = make_image(100, 5, (50, 50, 50));
    assert_eq!(process_image(&buf, 100, 5), Ok(vec![]));
}

#[test]
fn uniform_colour_image_yields_no_points() {
    let buf = make_image(100, 5, (123, 7, 89));
    assert_eq!(process_image(&buf, 100, 5), Ok(vec![]));
}

#[test]
fn uniform_minimum_width_image_yields_no_points() {
    let buf = make_image(81, 1, (0, 0, 0));
    assert_eq!(process_image(&buf, 81, 1), Ok(vec![]));
}

#[test]
fn bright_and_dark_uniform_rows_yield_no_points() {
    // Each row's histogram is rebuilt at the row start, so a dark row
    // followed by an all-bright row never stands out against its own median.
    let mut buf = make_image(100, 2, (50, 50, 50));
    set_run(&mut buf, 100, 0, 99, 1, (255, 255, 255));
    assert_eq!(process_image(&buf, 100, 2), Ok(vec![]));
}

#[test]
fn single_bright_blob_yields_one_candidate() {
    let mut buf = make_image(100, 3, (50, 50, 50));
    set_run(&mut buf, 100, 50, 54, 1, (255, 255, 255));
    assert_eq!(process_image(&buf, 100, 3), Ok(vec![pt(50, 1, 205)]));
}

#[test]
fn blob_on_first_row_yields_one_candidate() {
    let mut buf = make_image(100, 2, (50, 50, 50));
    set_run(&mut buf, 100, 50, 54, 0, (255, 255, 255));
    assert_eq!(process_image(&buf, 100, 2), Ok(vec![pt(50, 0, 205)]));
}

#[test]
fn close_blobs_on_one_row_merge_into_one_candidate() {
    // The second blob sits inside the first one's guard zone.
    let mut buf = make_image(100, 2, (50, 50, 50));
    set_run(&mut buf, 100, 10, 12, 1, (255, 255, 255));
    set_run(&mut buf, 100, 20, 22, 1, (255, 255, 255));
    assert_eq!(process_image(&buf, 100, 2), Ok(vec![pt(10, 1, 205)]));
}

#[test]
fn distant_blobs_on_one_row_stay_separate() {
    let mut buf = make_image(100, 2, (50, 50, 50));
    set_run(&mut buf, 100, 10, 12, 1, (255, 255, 255));
    set_run(&mut buf, 100, 40, 42, 1, (255, 255, 255));
    assert_eq!(
        process_image(&buf, 100, 2),
        Ok(vec![pt(10, 1, 205), pt(40, 1, 205)])
    );
}

#[test]
fn brighter_pixels_on_next_row_update_the_matched_point() {
    // A dim blob on one row, a brighter one just below and within the
    // exclusion radius: the existing record is updated in place.
    let mut buf = make_image(100, 4, (50, 50, 50));
    set_run(&mut buf, 100, 45, 47, 1, (150, 150, 150));
    set_run(&mut buf, 100, 49, 52, 2, (255, 255, 255));
    assert_eq!(process_image(&buf, 100, 4), Ok(vec![pt(50, 2, 205)]));
}

#[test]
fn bright_pixel_on_last_guard_step_is_suppressed() {
    // The blob closes at column 23; the guard counts down over columns 24
    // to 43 and expires on column 44, which therefore cannot open a point.
    let mut buf = make_image(100, 2, (50, 50, 50));
    set_run(&mut buf, 100, 20, 22, 1, (255, 255, 255));
    set_px(&mut buf, 100, 44, 1, (255, 255, 255));
    assert_eq!(process_image(&buf, 100, 2), Ok(vec![pt(20, 1, 205)]));
}

#[test]
fn bright_pixel_just_past_the_guard_opens_a_point() {
    let mut buf = make_image(100, 2, (50, 50, 50));
    set_run(&mut buf, 100, 20, 22, 1, (255, 255, 255));
    set_px(&mut buf, 100, 45, 1, (255, 255, 255));
    assert_eq!(
        process_image(&buf, 100, 2),
        Ok(vec![pt(20, 1, 205), pt(45, 1, 205)])
    );
}

#[test]
fn pruned_point_no_longer_merges() {
    // A second blob far enough below the first is recorded on its own: the
    // first one leaves the recent set once it is more than the exclusion
    // radius of rows old.
    let mut buf = make_image(100, 32, (50, 50, 50));
    set_run(&mut buf, 100, 50, 52, 1, (255, 255, 255));
    set_run(&mut buf, 100, 50, 52, 30, (255, 255, 255));
    assert_eq!(
        process_image(&buf, 100, 32),
        Ok(vec![pt(50, 1, 205), pt(50, 30, 205)])
    );
}

#[test]
fn blob_in_minimum_width_image_is_detected() {
    // At the minimum width the interior zone is empty, so every median
    // comes from the row-start prefill alone.
    let mut buf = make_image(81, 2, (50, 50, 50));
    set_run(&mut buf, 81, 50, 52, 0, (255, 255, 255));
    assert_eq!(process_image(&buf, 81, 2), Ok(vec![pt(50, 0, 205)]));
}

#[test]
fn blob_straddling_a_row_boundary_stays_one_blob() {
    // The state machine carries an open blob across the row break; the
    // candidate keeps the coordinates where its maximum first occurred.
    let mut buf = make_image(100, 3, (50, 50, 50));
    set_run(&mut buf, 100, 97, 99, 0, (255, 255, 255));
    set_run(&mut buf, 100, 0, 2, 1, (255, 255, 255));
    assert_eq!(process_image(&buf, 100, 3), Ok(vec![pt(97, 0, 205)]));
}

#[test]
fn blob_open_at_end_of_scan_is_discarded() {
    // The bright run reaches the last scanned pixel, so it never closes and
    // is never recorded.
    let mut buf = make_image(100, 3, (50, 50, 50));
    set_run(&mut buf, 100, 80, 99, 2, (255, 255, 255));
    assert_eq!(process_image(&buf, 100, 3), Ok(vec![]));
}
