use captains_log::history::ActivityHistory;
use captains_log::waveform::{
    band, cell, glyph, scale, smooth, waveform, window, Band, Glyph, WaveformCell, SCALE_FLOOR,
    SMOOTHING_SPAN,
};

fn history_of(samples: &[u32]) -> ActivityHistory {
    let mut history = ActivityHistory::new();
    for sample in samples {
        history.push(*sample);
    }
    history
}

fn shaded(num: u64, den: u64) -> WaveformCell {
    WaveformCell { band: Band::Medium, intensity_num: num, intensity_den: den }
}

#[test]
fn waveform_constants() {
    assert_eq!(SMOOTHING_SPAN, 4);
    assert_eq!(SCALE_FLOOR, 9);
}

#[test]
fn window_of_exact_width_is_the_history() {
    let history = history_of(&[0, 0, 0, 5, 0, 0, 0]);
    assert_eq!(window(&history, 7), vec![0, 0, 0, 5, 0, 0, 0]);
}

#[test]
fn window_takes_the_most_recent_samples() {
    let history = history_of(&[1, 2, 3, 4, 5, 6]);
    assert_eq!(window(&history, 4), vec![3, 4, 5, 6]);
    assert_eq!(window(&history, 1), vec![6]);
    assert_eq!(window(&history, 0), Vec::<u32>::new());
}

#[test]
fn window_centres_a_short_history_between_zeros() {
    let history = history_of(&[1, 2, 3]);
    assert_eq!(window(&history, 8), vec![0, 0, 1, 2, 3, 0, 0, 0]);
    assert_eq!(window(&history, 7), vec![0, 0, 1, 2, 3, 0, 0]);
    assert_eq!(window(&history, 4), vec![1, 2, 3, 0]);
}

#[test]
fn window_of_an_empty_history_is_silence() {
    let history = ActivityHistory::new();
    assert_eq!(window(&history, 5), vec![0, 0, 0, 0, 0]);
}

#[test]
fn smoothing_sums_the_last_four_samples() {
    assert_eq!(smooth(&vec![0, 0, 0, 5, 0, 0, 0]), vec![0, 0, 0, 5, 5, 5, 5]);
    assert_eq!(smooth(&vec![1, 2, 3, 4, 5, 6]), vec![1, 3, 6, 10, 14, 18]);
    assert_eq!(smooth(&vec![0, 0, 0, 5, 0, 0, 0, 0]), vec![0, 0, 0, 5, 5, 5, 5, 0]);
    assert_eq!(smooth(&Vec::new()), Vec::<u64>::new());
}

#[test]
fn smoothing_does_not_overflow_on_the_largest_samples() {
    let top = u32::MAX;
    let sums = smooth(&vec![top, top, top, top, top]);
    let one = top as u64;
    assert_eq!(sums, vec![one, 2 * one, 3 * one, 4 * one, 4 * one]);
}

#[test]
fn scale_is_the_peak_but_at_least_nine() {
    assert_eq!(scale(&vec![0, 0, 0, 5, 5, 5, 5]), 9);
    assert_eq!(scale(&Vec::new()), 9);
    assert_eq!(scale(&vec![9, 3]), 9);
    assert_eq!(scale(&vec![3, 10, 7]), 10);
    assert_eq!(scale(&vec![3, 10, 42]), 42);
}

#[test]
fn bands_by_smoothed_value() {
    assert_eq!(band(0), Band::Idle);
    assert_eq!(band(1), Band::Slow);
    assert_eq!(band(2), Band::Slow);
    assert_eq!(band(3), Band::Medium);
    assert_eq!(band(5), Band::Medium);
    assert_eq!(band(6), Band::Fast);
    assert_eq!(band(8), Band::Fast);
    assert_eq!(band(9), Band::VeryFast);
    assert_eq!(band(u64::MAX), Band::VeryFast);
}

#[test]
fn smoothed_burst_of_five_is_medium_against_the_floor() {
    let history = history_of(&[0, 0, 0, 5, 0, 0, 0]);
    let sums = smooth(&window(&history, 7));
    assert_eq!(sums, vec![0, 0, 0, 5, 5, 5, 5]);
    assert_eq!(scale(&sums), 9);
    assert_eq!(band(sums[3]), Band::Medium);
}

#[test]
fn cell_fraction_is_the_overlap_of_row_and_envelope() {
    // Value 5 of 9 in 8 rows: the envelope spans 4 * 5 / 9 rows around row 4,
    // that is 32 to 112 when a row is 18 units.
    let expected: [u64; 8] = [0, 4, 18, 18, 18, 18, 4, 0];
    for row in 0..8usize {
        let shaded = cell(5, 9, row, 8);
        assert_eq!(shaded.intensity_num, expected[row]);
        assert_eq!(shaded.intensity_den, 18);
        assert_eq!(shaded.band, Band::Medium);
    }
}

#[test]
fn cell_of_a_full_column_covers_every_row() {
    for row in 0..5usize {
        let shaded = cell(12, 12, row, 5);
        assert_eq!(shaded.intensity_num, 24);
        assert_eq!(shaded.intensity_den, 24);
        assert_eq!(shaded.band, Band::VeryFast);
    }
}

#[test]
fn cell_of_a_silent_column_covers_nothing() {
    for row in 0..6usize {
        let shaded = cell(0, 9, row, 6);
        assert_eq!(shaded.intensity_num, 0);
        assert_eq!(shaded.intensity_den, 18);
        assert_eq!(shaded.band, Band::Idle);
    }
}

#[test]
fn cell_with_an_odd_height_is_centred_in_the_middle_row() {
    // Value 3 of 9 in 3 rows: the envelope spans 18 to 36 of 54 units.
    assert_eq!(cell(3, 9, 0, 3).intensity_num, 0);
    assert_eq!(cell(3, 9, 1, 3).intensity_num, 18);
    assert_eq!(cell(3, 9, 2, 3).intensity_num, 0);
    // Value 6 of 9 reaches half way into the outer rows.
    assert_eq!(cell(6, 9, 0, 3).intensity_num, 9);
    assert_eq!(cell(6, 9, 1, 3).intensity_num, 18);
    assert_eq!(cell(6, 9, 2, 3).intensity_num, 9);
}

#[test]
fn cell_of_a_value_beyond_the_scale_covers_every_row() {
    for row in 0..4usize {
        let shaded = cell(25, 10, row, 4);
        assert_eq!(shaded.intensity_num, 20);
        assert_eq!(shaded.intensity_den, 20);
    }
    let widest = cell(u64::MAX, u64::MAX / 2, 0, 1);
    assert_eq!(widest.intensity_num, u64::MAX - 1);
    assert_eq!(widest.intensity_den, u64::MAX - 1);
}

#[test]
fn cell_scaled_against_nothing_is_empty() {
    let shaded = cell(0, 0, 0, 3);
    assert_eq!(shaded, WaveformCell { band: Band::Idle, intensity_num: 0, intensity_den: 0 });
    let loud = cell(7, 0, 2, 3);
    assert_eq!(loud, WaveformCell { band: Band::Fast, intensity_num: 0, intensity_den: 0 });
}

#[test]
fn cell_at_the_limits_of_its_arguments() {
    let half = u64::MAX / 2;
    let tall = u64::MAX as usize;
    let middle = cell(half - 1, half, tall / 2, tall);
    assert_eq!(middle.intensity_den, u64::MAX - 1);
    assert_eq!(middle.intensity_num, u64::MAX - 1);
    assert_eq!(cell(half - 1, half, 0, tall).intensity_num, 0);
    assert_eq!(cell(half - 1, half, 1, tall).intensity_num, u64::MAX - 2);
    assert_eq!(cell(half - 1, half, tall - 1, tall).intensity_num, 0);
    assert_eq!(cell(1, half, 0, tall).intensity_num, 0);

    let full = 4 * (u32::MAX as u64);
    let shaded = cell(full, full, usize::MAX - 1, usize::MAX);
    assert_eq!(shaded.intensity_den, 2 * full);
    assert_eq!(shaded.intensity_num, 2 * full);
    let silent = cell(0, full, 0, usize::MAX);
    assert_eq!(silent.intensity_num, 0);
}

#[test]
fn glyph_levels_of_the_upper_half() {
    let upper_row = 1usize;
    let height = 8usize;
    assert_eq!(glyph(&shaded(0, 80), upper_row, height), Glyph::Blank);
    assert_eq!(glyph(&shaded(20, 80), upper_row, height), Glyph::Blank);
    assert_eq!(glyph(&shaded(21, 80), upper_row, height), Glyph::LowerQuarter);
    assert_eq!(glyph(&shaded(30, 80), upper_row, height), Glyph::LowerQuarter);
    assert_eq!(glyph(&shaded(31, 80), upper_row, height), Glyph::LowerThreeEighths);
    assert_eq!(glyph(&shaded(40, 80), upper_row, height), Glyph::LowerThreeEighths);
    assert_eq!(glyph(&shaded(41, 80), upper_row, height), Glyph::LowerHalf);
    assert_eq!(glyph(&shaded(50, 80), upper_row, height), Glyph::LowerHalf);
    assert_eq!(glyph(&shaded(51, 80), upper_row, height), Glyph::LowerFiveEighths);
    assert_eq!(glyph(&shaded(60, 80), upper_row, height), Glyph::LowerFiveEighths);
    assert_eq!(glyph(&shaded(61, 80), upper_row, height), Glyph::LowerThreeQuarters);
    assert_eq!(glyph(&shaded(70, 80), upper_row, height), Glyph::LowerThreeQuarters);
    assert_eq!(glyph(&shaded(71, 80), upper_row, height), Glyph::LowerSevenEighths);
    assert_eq!(glyph(&shaded(79, 80), upper_row, height), Glyph::LowerSevenEighths);
    assert_eq!(glyph(&shaded(80, 80), upper_row, height), Glyph::Full);
}

#[test]
fn glyph_levels_of_the_lower_half() {
    let lower_row = 6usize;
    let height = 8usize;
    assert_eq!(glyph(&shaded(0, 80), lower_row, height), Glyph::Blank);
    assert_eq!(glyph(&shaded(40, 80), lower_row, height), Glyph::Blank);
    assert_eq!(glyph(&shaded(41, 80), lower_row, height), Glyph::UpperHalf);
    assert_eq!(glyph(&shaded(79, 80), lower_row, height), Glyph::UpperHalf);
    assert_eq!(glyph(&shaded(80, 80), lower_row, height), Glyph::Full);
}

#[test]
fn glyph_is_full_from_ninety_nine_hundredths() {
    assert_eq!(glyph(&shaded(989, 1000), 0, 8), Glyph::LowerSevenEighths);
    assert_eq!(glyph(&shaded(990, 1000), 0, 8), Glyph::Full);
    assert_eq!(glyph(&shaded(989, 1000), 7, 8), Glyph::UpperHalf);
    assert_eq!(glyph(&shaded(990, 1000), 7, 8), Glyph::Full);
}

#[test]
fn glyph_marks_the_centre_row_where_nothing_is_drawn() {
    assert_eq!(glyph(&shaded(0, 18), 4, 8), Glyph::CenterLine);
    assert_eq!(glyph(&shaded(9, 18), 4, 8), Glyph::CenterLine);
    assert_eq!(glyph(&shaded(10, 18), 4, 8), Glyph::UpperHalf);
    assert_eq!(glyph(&shaded(0, 18), 3, 8), Glyph::Blank);
    assert_eq!(glyph(&shaded(0, 18), 1, 3), Glyph::CenterLine);
    assert_eq!(glyph(&shaded(0, 18), 0, 1), Glyph::CenterLine);
}

#[test]
fn glyph_with_the_largest_numbers_does_not_overflow() {
    assert_eq!(glyph(&shaded(u64::MAX, u64::MAX), 0, usize::MAX), Glyph::Full);
    assert_eq!(glyph(&shaded(u64::MAX / 2, u64::MAX), usize::MAX - 1, usize::MAX), Glyph::Blank);
}

#[test]
fn waveform_grid_has_the_requested_shape() {
    let history = history_of(&[1, 2, 3]);
    let grid = waveform(&history, 6, 4);
    assert_eq!(grid.len(), 4);
    for row in &grid {
        assert_eq!(row.len(), 6);
    }
    assert_eq!(waveform(&history, 0, 3), vec![Vec::new(), Vec::new(), Vec::new()]);
    assert_eq!(waveform(&history, 3, 0), Vec::<Vec<WaveformCell>>::new());
}

#[test]
fn waveform_of_a_single_burst() {
    let history = history_of(&[0, 0, 0, 5, 0, 0, 0]);
    let grid = waveform(&history, 7, 8);
    let covered: [u64; 8] = [0, 4, 18, 18, 18, 18, 4, 0];
    for row in 0..8usize {
        for column in 0..7usize {
            let shaded = grid[row][column];
            assert_eq!(shaded.intensity_den, 18);
            if column < 3 {
                assert_eq!(shaded.band, Band::Idle);
                assert_eq!(shaded.intensity_num, 0);
            } else {
                assert_eq!(shaded.band, Band::Medium);
                assert_eq!(shaded.intensity_num, covered[row]);
            }
        }
    }
}

#[test]
fn waveform_scales_against_the_peak_above_the_floor() {
    let history = history_of(&[10, 10, 0, 0]);
    // Window [10, 10, 0, 0] smooths to [10, 20, 20, 20]; the peak of 20 is the scale.
    let grid = waveform(&history, 4, 2);
    let expected_top: [u64; 4] = [20, 40, 40, 40];
    for column in 0..4usize {
        assert_eq!(grid[0][column].intensity_den, 40);
        assert_eq!(grid[0][column].intensity_num, expected_top[column]);
        assert_eq!(grid[1][column].intensity_num, expected_top[column]);
        assert_eq!(grid[0][column].band, Band::VeryFast);
    }
}

#[test]
fn waveform_pads_a_short_history_on_both_sides() {
    let history = history_of(&[9]);
    // Window [0, 9, 0, 0] smooths to [0, 9, 9, 9].
    let grid = waveform(&history, 4, 2);
    assert_eq!(grid[0][0], WaveformCell { band: Band::Idle, intensity_num: 0, intensity_den: 18 });
    for column in 1..4usize {
        assert_eq!(
            grid[0][column],
            WaveformCell { band: Band::VeryFast, intensity_num: 18, intensity_den: 18 }
        );
    }
}

#[test]
fn waveform_is_the_same_on_every_call() {
    let mut history = ActivityHistory::new();
    for sample in 0..150u32 {
        history.push((sample * 7 + 3) % 11);
    }
    let first = waveform(&history, 80, 7);
    let second = waveform(&history, 80, 7);
    assert_eq!(first, second);

    let mut same = ActivityHistory::new();
    for sample in 50..150u32 {
        same.push((sample * 7 + 3) % 11);
    }
    assert_eq!(history.to_vec(), same.to_vec());
    assert_eq!(waveform(&same, 80, 7), first);
}

#[test]
fn waveform_cells_are_fractions_of_a_row() {
    let mut history = ActivityHistory::new();
    for sample in 0..60u32 {
        history.push((sample * 5) % 13);
    }
    let grid = waveform(&history, 40, 9);
    for row in &grid {
        for shaded in row {
            assert!(shaded.intensity_den > 0);
            assert!(shaded.intensity_num <= shaded.intensity_den);
        }
    }
}
