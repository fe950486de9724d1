use point_scan::hist::HistSet;

#[test]
fn median_of_empty_histogram_is_zero() {
    let h = HistSet::new();
    assert_eq!(h.median(), 0);
}

#[test]
fn median_of_single_sample() {
    let mut h = HistSet::new();
    h.incr(5);
    assert_eq!(h.median(), 5);
}

#[test]
fn median_lower_tie_break() {
    // Values 1, 2, 3, 4: the lower median is 2, not 2.5 rounded.
    let mut h = HistSet::new();
    h.incr(1);
    h.incr(2);
    h.incr(3);
    h.incr(4);
    assert_eq!(h.median(), 2);
}

#[test]
fn count_tracks_incr_and_decr() {
    let mut h = HistSet::new();
    h.incr(10);
    h.incr(10);
    h.incr(200);
    assert_eq!(h.count, 3);
    h.decr(10);
    assert_eq!(h.count, 2);
    assert_eq!(h.data[10], 1);
    assert_eq!(h.data[200], 1);
}

#[test]
fn decr_then_median_follows_remaining_samples() {
    let mut h = HistSet::new();
    h.incr(3);
    h.incr(7);
    h.incr(9);
    assert_eq!(h.median(), 7);
    h.decr(9);
    assert_eq!(h.median(), 3);
}

#[test]
fn median_matches_naive_sorted_rank_on_window() {
    // A full window of 81 pseudo-random values, checked against the
    // sort-based lower median (1-indexed rank ceil(81 / 2) = 41).
    let mut h = HistSet::new();
    let mut values: Vec<u8> = Vec::new();
    let mut seed: u64 = 0x2545f4914f6cdd1d;
    for _ in 0..81 {
        seed = seed.wrapping_mul(6364136223846793005).wrapping_add(1442695040888963407);
        let v = (seed >> 33) as u8;
        values.push(v);
        h.incr(v);
    }
    let mut sorted = values.clone();
    sorted.sort();
    assert_eq!(h.median(), sorted[40]);
}

#[test]
fn median_of_uniform_window_is_the_value() {
    let mut h = HistSet::new();
    for _ in 0..81 {
        h.incr(50);
    }
    assert_eq!(h.median(), 50);
}
