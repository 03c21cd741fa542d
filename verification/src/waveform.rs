//! The waveform transform: from the activity history and the target
//! dimensions to a grid of shaded cells.
//!
//! The transform selects the newest samples that fit the width, smooths
//! them with a trailing sum, scales the result against its peak and then
//! says, for every cell of the grid, how much of the cell the waveform
//! covers and which intensity band its column belongs to.

use crate::history::ActivityHistory;
use vstd::prelude::*;

verus! {

/// Number of consecutive samples that one smoothed value sums up.
pub const SMOOTHING_SPAN: usize = 4;

/// The least value that the waveform is scaled against, so that a nearly
/// silent window is not blown up to full height.
pub const SCALE_FLOOR: u64 = 9;

/// A run of `len` zero samples.
pub open spec fn silence(len: nat) -> Seq<u32> {
    Seq::new(len, |i: int| 0u32)
}

/// The samples shown in a window of `width` columns: the newest `width`
/// samples, or, when there are fewer, all of them centred between zeros,
/// with the smaller half of the padding on the left.
pub open spec fn window_of(history: Seq<u32>, width: nat) -> Seq<u32> {
    if history.len() >= width {
        history.subrange(history.len() - width, history.len() as int)
    } else {
        let shortfall = (width - history.len()) as nat;
        let left = shortfall / 2;
        let right = (shortfall - left) as nat;
        silence(left) + history + silence(right)
    }
}

/// The sample at `index`, or zero outside the window.
pub open spec fn sample_or_zero(window: Seq<u32>, index: int) -> int {
    if 0 <= index < window.len() {
        window[index] as int
    } else {
        0
    }
}

/// The sum of the `span` samples that end at `index`, cut off at the start
/// of the window.
pub open spec fn trailing_sum(window: Seq<u32>, index: int, span: nat) -> int
    decreases span,
{
    if span == 0 {
        0
    } else {
        trailing_sum(window, index, (span - 1) as nat) + sample_or_zero(window, index - (span - 1))
    }
}

/// The window with each sample replaced by the trailing sum that ends at it.
pub open spec fn smoothed(window: Seq<u32>) -> Seq<u64> {
    Seq::new(window.len(), |i: int| trailing_sum(window, i, SMOOTHING_SPAN as nat) as u64)
}

/// The greatest of `values`, or zero when there is none.
pub open spec fn peak(values: Seq<u64>) -> int
    decreases values.len(),
{
    if values.len() == 0 {
        0
    } else if peak(values.drop_last()) >= values.last() {
        peak(values.drop_last())
    } else {
        values.last() as int
    }
}

/// The value that full height stands for: the peak, but no less than the
/// floor.
pub open spec fn scale_of(values: Seq<u64>) -> int {
    if peak(values) >= SCALE_FLOOR {
        peak(values)
    } else {
        SCALE_FLOOR as int
    }
}

/// A trailing sum of `span` samples is at most `span` times the largest
/// sample value.
pub proof fn lemma_trailing_sum_bounds(window: Seq<u32>, index: int, span: nat)
    ensures
        0 <= trailing_sum(window, index, span) <= span * u32::MAX,
    decreases span,
{
    if span > 0 {
        lemma_trailing_sum_bounds(window, index, (span - 1) as nat);
    }
}

/// The peak is an upper bound of every value, and is one of the values
/// unless there is none.
pub proof fn lemma_peak_is_greatest(values: Seq<u64>)
    ensures
        forall|i: int| 0 <= i < values.len() ==> values[i] <= peak(values),
        values.len() == 0 ==> peak(values) == 0,
        values.len() > 0 ==> exists|i: int| 0 <= i < values.len() && values[i] == peak(values),
    decreases values.len(),
{
    if values.len() > 0 {
        let earlier = values.drop_last();
        lemma_peak_is_greatest(earlier);
        assert forall|i: int| 0 <= i < values.len() implies values[i] <= peak(values) by {
            if i < earlier.len() {
                assert(earlier[i] == values[i]);
            }
        }
        if peak(earlier) >= values.last() && earlier.len() > 0 {
            let i = choose|i: int| 0 <= i < earlier.len() && earlier[i] == peak(earlier);
        } else {
            assert(values[values.len() - 1] == peak(values));
        }
    }
}

/// Selects the samples to show in `width` columns.
pub fn window(history: &ActivityHistory, width: usize) -> (shown: Vec<u32>)
    ensures
        shown@ == window_of(history@, width as nat),
        shown@.len() == width,
{
    let len = history.len();
    let mut shown: Vec<u32> = Vec::new();
    if len >= width {
        let skip = len - width;
        let mut i: usize = 0;
        while i < width
            invariant
                i <= width,
                len == history@.len(),
                skip + width == len,
                shown@ == history@.subrange(skip as int, skip + i),
            decreases width - i,
        {
            let sample = history.get(skip + i);
            shown.push(sample.unwrap());
            i += 1;
        }
    } else {
        let shortfall = width - len;
        let left = shortfall / 2;
        let right = shortfall - left;
        let mut i: usize = 0;
        while i < left
            invariant
                i <= left,
                shown@ == silence(i as nat),
            decreases left - i,
        {
            shown.push(0);
            i += 1;
        }
        let mut j: usize = 0;
        while j < len
            invariant
                j <= len,
                len == history@.len(),
                shown@ == silence(left as nat) + history@.subrange(0, j as int),
            decreases len - j,
        {
            let sample = history.get(j);
            shown.push(sample.unwrap());
            j += 1;
        }
        let mut k: usize = 0;
        while k < right
            invariant
                k <= right,
                shown@ == silence(left as nat) + history@ + silence(k as nat),
            decreases right - k,
        {
            shown.push(0);
            k += 1;
        }
    }
    shown
}

/// Replaces each sample by the sum of the samples of the smoothing span
/// that ends at it.
pub fn smooth(shown: &Vec<u32>) -> (sums: Vec<u64>)
    ensures
        sums@ == smoothed(shown@),
{
    let mut sums: Vec<u64> = Vec::new();
    let mut i: usize = 0;
    while i < shown.len()
        invariant
            i <= shown@.len(),
            sums@ == smoothed(shown@).subrange(0, i as int),
        decreases shown@.len() - i,
    {
        let mut sum: u64 = 0;
        let mut j: usize = 0;
        while j < SMOOTHING_SPAN
            invariant
                j <= SMOOTHING_SPAN,
                i < shown@.len(),
                sum == trailing_sum(shown@, i as int, j as nat),
            decreases SMOOTHING_SPAN - j,
        {
            proof {
                lemma_trailing_sum_bounds(shown@, i as int, j as nat);
            }
            if i >= j {
                sum += shown[i - j] as u64;
            }
            j += 1;
        }
        sums.push(sum);
        i += 1;
    }
    sums
}

/// The value that full height stands for in a window of smoothed values.
pub fn scale(sums: &Vec<u64>) -> (full: u64)
    ensures
        full == scale_of(sums@),
        full >= SCALE_FLOOR,
{
    let mut greatest: u64 = 0;
    let mut i: usize = 0;
    while i < sums.len()
        invariant
            i <= sums@.len(),
            greatest == peak(sums@.subrange(0, i as int)),
        decreases sums@.len() - i,
    {
        assert(sums@.subrange(0, i + 1).drop_last() =~= sums@.subrange(0, i as int));
        if sums[i] > greatest {
            greatest = sums[i];
        }
        i += 1;
    }
    assert(sums@.subrange(0, i as int) =~= sums@);
    if greatest >= SCALE_FLOOR {
        greatest
    } else {
        SCALE_FLOOR
    }
}

/// The intensity class of a smoothed value, by which a column is coloured.
#[derive(Clone, Copy, Debug, PartialEq, Eq, Structural)]
pub enum Band {
    /// No activity.
    Idle,
    /// One or two keys in the span.
    Slow,
    /// Three to five keys in the span.
    Medium,
    /// Six to eight keys in the span.
    Fast,
    /// Nine keys or more in the span.
    VeryFast,
}

/// The band that a smoothed value falls into.
pub open spec fn band_of(value: int) -> Band {
    if value <= 0 {
        Band::Idle
    } else if value <= 2 {
        Band::Slow
    } else if value <= 5 {
        Band::Medium
    } else if value <= 8 {
        Band::Fast
    } else {
        Band::VeryFast
    }
}

/// Classifies a smoothed value.
pub fn band(value: u64) -> (class: Band)
    ensures
        class == band_of(value as int),
{
    if value == 0 {
        Band::Idle
    } else if value <= 2 {
        Band::Slow
    } else if value <= 5 {
        Band::Medium
    } else if value <= 8 {
        Band::Fast
    } else {
        Band::VeryFast
    }
}

/// One cell of the waveform grid: the band of its column and the fraction
/// of the cell that the waveform covers, `intensity_num / intensity_den`.
#[derive(Clone, Copy, Debug, PartialEq, Eq, Structural)]
pub struct WaveformCell {
    pub band: Band,
    pub intensity_num: u64,
    pub intensity_den: u64,
}

/// The number of units that one row is divided into when a column is
/// measured against `full`.
///
/// The waveform of a column with value `value` reaches `value / full` of
/// half the height to either side of the vertical centre. Measured in
/// units of `1 / (2 * full)` of a row, the centre, the reach and every row
/// boundary are whole numbers.
pub open spec fn units_per_row(full: int) -> int {
    2 * full
}

/// The upper edge of the waveform of a column, in units from the top.
pub open spec fn envelope_top(value: int, full: int, height: int) -> int {
    height * (full - value)
}

/// The lower edge of the waveform of a column, in units from the top.
pub open spec fn envelope_bottom(value: int, full: int, height: int) -> int {
    height * (full + value)
}

/// The number of units of row `row` that the waveform of a column covers:
/// the length of the overlap of the row's span with the envelope.
pub open spec fn covered_units(value: int, full: int, row: int, height: int) -> int {
    let row_top = row * units_per_row(full);
    let row_bottom = (row + 1) * units_per_row(full);
    let top = if row_top >= envelope_top(value, full, height) {
        row_top
    } else {
        envelope_top(value, full, height)
    };
    let bottom = if row_bottom <= envelope_bottom(value, full, height) {
        row_bottom
    } else {
        envelope_bottom(value, full, height)
    };
    if bottom > top {
        bottom - top
    } else {
        0
    }
}

/// The cell in row `row` of a column with smoothed value `value`.
pub open spec fn cell_of(value: u64, full: u64, row: int, height: int) -> WaveformCell {
    WaveformCell {
        band: band_of(value as int),
        intensity_num: covered_units(value as int, full as int, row, height) as u64,
        intensity_den: units_per_row(full as int) as u64,
    }
}

/// The cell at (`row`, `column`) of the waveform of `history` drawn in
/// `width` columns and `height` rows.
pub open spec fn cell_at(history: Seq<u32>, width: nat, height: nat, row: int, column: int)
    -> WaveformCell {
    let sums = smoothed(window_of(history, width));
    cell_of(sums[column], scale_of(sums) as u64, row, height as int)
}

/// Whether `rows` is the waveform of `history` in `width` columns and
/// `height` rows: it has that shape, and each cell is the one the
/// transform defines.
pub open spec fn is_waveform_of(
    rows: Seq<Seq<WaveformCell>>,
    history: Seq<u32>,
    width: nat,
    height: nat,
) -> bool {
    &&& rows.len() == height
    &&& forall|r: int| 0 <= r < height ==> (#[trigger] rows[r]).len() == width
    &&& forall|r: int, c: int|
        0 <= r < height && 0 <= c < width ==> #[trigger] rows[r][c] == cell_at(
            history,
            width,
            height,
            r,
            c,
        )
}

/// The rows of a grid as sequences of cells.
pub open spec fn rows_of(grid: Vec<Vec<WaveformCell>>) -> Seq<Seq<WaveformCell>> {
    Seq::new(grid@.len(), |r: int| grid@[r]@)
}

/// The covered part of a row is never more than the row.
pub proof fn lemma_covered_units_bounds(value: int, full: int, row: int, height: int)
    requires
        0 <= full,
    ensures
        0 <= covered_units(value, full, row, height) <= units_per_row(full),
{
    assert((row + 1) * (2 * full) == row * (2 * full) + 2 * full) by (nonlinear_arith);
}

/// A column whose value reaches the scale covers every row of the grid in
/// full.
pub proof fn lemma_full_column_covers_rows(value: int, full: int, row: int, height: int)
    requires
        0 <= full <= value,
        0 <= row < height,
    ensures
        covered_units(value, full, row, height) == units_per_row(full),
{
    assert((row + 1) * (2 * full) == row * (2 * full) + 2 * full) by (nonlinear_arith);
    assert(0 <= row * (2 * full)) by (nonlinear_arith)
        requires
            0 <= row,
            0 <= full,
    ;
    assert(height * (full - value) <= 0) by (nonlinear_arith)
        requires
            0 <= height,
            full <= value,
    ;
    assert((row + 1) * (2 * full) <= height * (full + value)) by (nonlinear_arith)
        requires
            0 <= row + 1 <= height,
            0 <= 2 * full <= full + value,
    ;
}

/// Computes the cell in row `row` of a column with smoothed value `value`,
/// scaled against `full`, in a grid of `height` rows.
pub fn cell(value: u64, full: u64, row: usize, height: usize) -> (shaded: WaveformCell)
    requires
        row < height,
        2 * full <= u64::MAX,
    ensures
        shaded == cell_of(value, full, row as int, height as int),
        shaded.intensity_num <= shaded.intensity_den,
        full > 0 ==> shaded.intensity_den > 0,
{
    let units: u128 = 2 * (full as u128);
    proof {
        lemma_covered_units_bounds(value as int, full as int, row as int, height as int);
    }
    let covered: u128 = if value >= full {
        proof {
            lemma_full_column_covers_rows(value as int, full as int, row as int, height as int);
        }
        units
    } else {
        proof {
            assert(0 <= row * units <= (row + 1) * units <= u64::MAX * u64::MAX)
                by (nonlinear_arith)
                requires
                    0 <= row,
                    row + 1 <= u64::MAX,
                    0 <= units <= u64::MAX,
            ;
            assert(0 <= height * (full - value) <= height * (full + value) <= u64::MAX
                * u64::MAX) by (nonlinear_arith)
                requires
                    0 <= height <= u64::MAX,
                    0 <= value < full,
                    full + value <= u64::MAX,
            ;
        }
        let row_top: u128 = (row as u128) * units;
        let row_bottom: u128 = (row as u128 + 1) * units;
        let wave_top: u128 = (height as u128) * ((full - value) as u128);
        let wave_bottom: u128 = (height as u128) * (full as u128 + value as u128);
        let top: u128 = if row_top >= wave_top {
            row_top
        } else {
            wave_top
        };
        let bottom: u128 = if row_bottom <= wave_bottom {
            row_bottom
        } else {
            wave_bottom
        };
        if bottom > top {
            bottom - top
        } else {
            0
        }
    };
    WaveformCell { band: band(value), intensity_num: covered as u64, intensity_den: units as u64 }
}

/// Every smoothed value is at most the scale, and the scale is within the
/// range that a trailing sum can reach.
pub proof fn lemma_scale_covers_window(window: Seq<u32>)
    ensures
        forall|c: int|
            0 <= c < window.len() ==> (#[trigger] smoothed(window)[c]) <= scale_of(
                smoothed(window),
            ),
        SCALE_FLOOR <= scale_of(smoothed(window)) <= SMOOTHING_SPAN * u32::MAX,
{
    let sums = smoothed(window);
    lemma_peak_is_greatest(sums);
    if sums.len() > 0 {
        let i = choose|i: int| 0 <= i < sums.len() && sums[i] == peak(sums);
        lemma_trailing_sum_bounds(window, i, SMOOTHING_SPAN as nat);
    }
}

/// Whether `rows` holds the first `done` rows of the waveform.
spec fn is_waveform_rows(
    rows: Seq<Seq<WaveformCell>>,
    history: Seq<u32>,
    width: nat,
    height: nat,
    done: nat,
) -> bool {
    &&& rows.len() == done
    &&& forall|r: int| 0 <= r < done ==> (#[trigger] rows[r]).len() == width
    &&& forall|r: int, c: int|
        0 <= r < done && 0 <= c < width ==> #[trigger] rows[r][c] == cell_at(
            history,
            width,
            height,
            r,
            c,
        )
}

/// The waveform transform: the grid of `height` rows and `width` columns
/// that shows the newest samples of `history`.
pub fn waveform(history: &ActivityHistory, width: usize, height: usize) -> (grid: Vec<
    Vec<WaveformCell>,
>)
    ensures
        is_waveform_of(rows_of(grid), history@, width as nat, height as nat),
{
    let shown = window(history, width);
    let sums = smooth(&shown);
    let full = scale(&sums);
    proof {
        lemma_scale_covers_window(shown@);
    }
    let mut grid: Vec<Vec<WaveformCell>> = Vec::new();
    let mut row: usize = 0;
    while row < height
        invariant
            row <= height,
            sums@ == smoothed(window_of(history@, width as nat)),
            sums@.len() == width,
            full == scale_of(sums@),
            full <= SMOOTHING_SPAN * u32::MAX,
            is_waveform_rows(rows_of(grid), history@, width as nat, height as nat, row as nat),
        decreases height - row,
    {
        let mut cells: Vec<WaveformCell> = Vec::new();
        let mut column: usize = 0;
        while column < width
            invariant
                column <= width,
                row < height,
                sums@.len() == width,
                full <= SMOOTHING_SPAN * u32::MAX,
                cells@.len() == column,
                forall|c: int|
                    0 <= c < column ==> #[trigger] cells@[c] == cell_of(
                        sums@[c],
                        full,
                        row as int,
                        height as int,
                    ),
            decreases width - column,
        {
            cells.push(cell(sums[column], full, row, height));
            column += 1;
        }
        let ghost before = rows_of(grid);
        grid.push(cells);
        row += 1;
        proof {
            let after = rows_of(grid);
            assert forall|r: int| 0 <= r < row implies (#[trigger] after[r]).len() == width by {
                if r < row - 1 {
                    assert(after[r] == before[r]);
                }
            }
            assert forall|r: int, c: int|
                0 <= r < row && 0 <= c < width implies #[trigger] after[r][c] == cell_at(
                history@,
                width as nat,
                height as nat,
                r,
                c,
            ) by {
                if r < row - 1 {
                    assert(after[r] == before[r]);
                }
            }
        }
    }
    grid
}

/// A window has as many samples as it has columns.
pub proof fn lemma_window_has_width(history: Seq<u32>, width: nat)
    ensures
        window_of(history, width).len() == width,
{
}

/// Every cell of a waveform holds a fraction: its denominator is positive
/// and its numerator is no greater.
pub proof fn lemma_cells_are_fractions(
    history: Seq<u32>,
    width: nat,
    height: nat,
    row: int,
    column: int,
)
    requires
        0 <= row < height,
        0 <= column < width,
    ensures
        cell_at(history, width, height, row, column).intensity_den > 0,
        cell_at(history, width, height, row, column).intensity_num <= cell_at(
            history,
            width,
            height,
            row,
            column,
        ).intensity_den,
{
    let shown = window_of(history, width);
    let sums = smoothed(shown);
    lemma_window_has_width(history, width);
    lemma_scale_covers_window(shown);
    lemma_covered_units_bounds(sums[column] as int, scale_of(sums), row, height as int);
}

/// The transform is a function of its inputs: two grids that are both the
/// waveform of the same history in the same dimensions are equal, cell for
/// cell.
pub proof fn lemma_waveform_is_determined(
    first: Seq<Seq<WaveformCell>>,
    second: Seq<Seq<WaveformCell>>,
    history: Seq<u32>,
    width: nat,
    height: nat,
)
    requires
        is_waveform_of(first, history, width, height),
        is_waveform_of(second, history, width, height),
    ensures
        first == second,
{
    assert forall|r: int| 0 <= r < height implies first[r] == second[r] by {
        assert(first[r] =~= second[r]);
    }
}

/// The shape drawn in a cell, chosen by how much of the cell is covered.
#[derive(Clone, Copy, Debug, PartialEq, Eq, Structural)]
pub enum Glyph {
    /// Nothing is drawn.
    Blank,
    /// The lower quarter of the cell.
    LowerQuarter,
    /// The lower three eighths of the cell.
    LowerThreeEighths,
    /// The lower half of the cell.
    LowerHalf,
    /// The lower five eighths of the cell.
    LowerFiveEighths,
    /// The lower three quarters of the cell.
    LowerThreeQuarters,
    /// The lower seven eighths of the cell.
    LowerSevenEighths,
    /// The upper half of the cell.
    UpperHalf,
    /// The whole cell.
    Full,
    /// The horizontal rule that marks the centre row where nothing else
    /// is drawn.
    CenterLine,
}

/// Whether the fraction `num / den` is greater than `p / q`, compared
/// without dividing.
pub open spec fn exceeds(num: int, den: int, p: int, q: int) -> bool {
    num * q > p * den
}

/// Whether row `row` lies in the upper half of a grid of `height` rows:
/// its middle is above the vertical centre.
pub open spec fn in_upper_half(row: int, height: int) -> bool {
    2 * row + 1 < height
}

/// The shape for a covered fraction of `num / den`, before the centre line
/// is put in. Rows of the upper half fill from the bottom in eighths; rows
/// of the lower half are drawn half or not at all; a cell covered to 99
/// hundredths or more is full.
pub open spec fn shape_of(num: int, den: int, upper: bool) -> Glyph {
    if num <= 0 {
        Glyph::Blank
    } else if num * 100 >= 99 * den {
        Glyph::Full
    } else if upper {
        if exceeds(num, den, 7, 8) {
            Glyph::LowerSevenEighths
        } else if exceeds(num, den, 6, 8) {
            Glyph::LowerThreeQuarters
        } else if exceeds(num, den, 5, 8) {
            Glyph::LowerFiveEighths
        } else if exceeds(num, den, 4, 8) {
            Glyph::LowerHalf
        } else if exceeds(num, den, 3, 8) {
            Glyph::LowerThreeEighths
        } else if exceeds(num, den, 2, 8) {
            Glyph::LowerQuarter
        } else {
            Glyph::Blank
        }
    } else if exceeds(num, den, 1, 2) {
        Glyph::UpperHalf
    } else {
        Glyph::Blank
    }
}

/// The shape drawn for `shaded` in row `row` of a grid of `height` rows.
pub open spec fn glyph_of(shaded: WaveformCell, row: int, height: int) -> Glyph {
    let shape = shape_of(
        shaded.intensity_num as int,
        shaded.intensity_den as int,
        in_upper_half(row, height),
    );
    if shape == Glyph::Blank && row == height / 2 {
        Glyph::CenterLine
    } else {
        shape
    }
}

/// Chooses the shape to draw for a cell.
pub fn glyph(shaded: &WaveformCell, row: usize, height: usize) -> (shape: Glyph)
    ensures
        shape == glyph_of(*shaded, row as int, height as int),
{
    let num: u128 = shaded.intensity_num as u128;
    let den: u128 = shaded.intensity_den as u128;
    let upper: bool = 2 * (row as u128) + 1 < height as u128;
    let shape = if num == 0 {
        Glyph::Blank
    } else if num * 100 >= 99 * den {
        Glyph::Full
    } else if upper {
        if num * 8 > 7 * den {
            Glyph::LowerSevenEighths
        } else if num * 8 > 6 * den {
            Glyph::LowerThreeQuarters
        } else if num * 8 > 5 * den {
            Glyph::LowerFiveEighths
        } else if num * 8 > 4 * den {
            Glyph::LowerHalf
        } else if num * 8 > 3 * den {
            Glyph::LowerThreeEighths
        } else if num * 8 > 2 * den {
            Glyph::LowerQuarter
        } else {
            Glyph::Blank
        }
    } else if num * 2 > den {
        Glyph::UpperHalf
    } else {
        Glyph::Blank
    };
    if shape == Glyph::Blank && row == height / 2 {
        Glyph::CenterLine
    } else {
        shape
    }
}

} // verus!
