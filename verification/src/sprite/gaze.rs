//! Cursor-follow gaze: pick the 16-direction stare frame for a v2 pet.
//!
//! The angle to the cursor is measured *clockwise from straight up* and
//! quantized to 16 sectors of 22.5 degrees. Sectors 0..=7 map to sprite row 9
//! (columns 0..=7), sectors 8..=15 to row 10 - so on the canonical 8-column
//! sheet the frame index is simply `row9_base + sector` (72..=87). A deadzone
//! around the pet centre has no sector (look straight ahead / resume idle).

use vstd::prelude::*;

verus! {

/// The two spritesheet rows that hold the gaze frames (v2 pets only).
pub const GAZE_ROW_LO: usize = 9;

pub const GAZE_ROW_HI: usize = 10;

pub const SECTORS: i32 = 16;

/// Gaze always uses 8 cells per row, regardless of sheet width.
pub const PER_ROW: i32 = 8;

/// A resolved gaze frame: which sprite cell to draw, and whether to mirror it
/// horizontally.
#[derive(Debug, Clone, Copy, PartialEq, Eq, Structural)]
pub struct GazeFrame {
    pub index: usize,
    pub flip_h: bool,
}

/// Cell of a sector, counted from straight up.
pub open spec fn sector_cell(sector: int, columns: int) -> int {
    (GAZE_ROW_LO + sector / 8) * columns + sector % 8
}

/// The sector whose art shows `sector`: itself up to straight down, its
/// mirror image beyond.
pub open spec fn source_sector(sector: int) -> int {
    if sector > 8 {
        16 - sector
    } else {
        sector
    }
}

pub fn sector_to_index(sector: i32, columns: usize) -> (index: usize)
    requires
        0 <= sector,
        sector_cell(sector as int, columns as int) <= usize::MAX,
    ensures
        index == sector_cell(sector as int, columns as int),
{
    let row: usize = GAZE_ROW_LO + (sector / PER_ROW) as usize;
    let col: usize = (sector % PER_ROW) as usize;
    proof {
        assert(0 <= row * columns) by (nonlinear_arith)
            requires
                0 <= row,
                0 <= columns,
        ;
    }
    row * columns + col
}

/// Pick the gaze frame for the sector the cursor is in (0 = up, 4 = right,
/// 8 = down, 12 = left), or `None` where it is in none. `columns` is the
/// sheet's column count (canonically 8).
///
/// Only the up-right-down half is stored as art (sectors 0..=8, cells
/// 72..=80). The left half (sectors 9..=15) is those same frames **mirrored**:
/// sector `s` reuses source sector `16 - s` flipped, so looking left is
/// looking right flipped. Perfectly symmetric, and half the art to author.
pub fn gaze_frame(sector: Option<i32>, columns: usize) -> (frame: Option<GazeFrame>)
    requires
        sector matches Some(s) ==> 0 <= s < SECTORS && sector_cell(source_sector(s as int), columns as int)
            <= usize::MAX,
    ensures
        match sector {
            None => frame is None,
            Some(s) => frame == Some(
                GazeFrame {
                    index: sector_cell(source_sector(s as int), columns as int) as usize,
                    flip_h: s > 8,
                },
            ),
        },
{
    match sector {
        None => None,
        Some(s) => {
            let (src, flip_h): (i32, bool) = if s > SECTORS / 2 {
                (SECTORS - s, true)  // left half mirrors the right half
            } else {
                (s, false)  // up (0), right side (1..=7), down (8)
            };
            Some(GazeFrame { index: sector_to_index(src, columns), flip_h })
        },
    }
}

/// Looking left is looking right flipped: mirrored sectors show the same cell.
/// Straight up and straight down are their own mirror images.
pub proof fn left_mirrors_right(s: int)
    requires
        0 < s < 8,
    ensures
        source_sector(16 - s) == source_sector(s) == s,
        source_sector(0) == 0,
        source_sector(8) == 8,
{
}

/// Only the nine source cells are ever used, and they lie in the two gaze
/// rows; on the canonical sheet they are 72..=80.
pub proof fn gaze_uses_source_cells(s: int, columns: int)
    requires
        0 <= s < 16,
        8 <= columns,
    ensures
        ({
            let cell = sector_cell(source_sector(s), columns);
            &&& cell / columns == GAZE_ROW_LO || cell / columns == GAZE_ROW_HI
            &&& cell % columns < 8
            &&& columns == 8 ==> 72 <= cell <= 80
        }),
{
    let src = source_sector(s);
    let row = GAZE_ROW_LO + src / 8;
    vstd::arithmetic::div_mod::lemma_fundamental_div_mod_converse(row * columns + src % 8, columns, row, src % 8);
}

/// The pet looks where the sector is: up to the seventh the cell of the ninth
/// row that many along, straight down the tenth row's first, and beyond that
/// the mirrored cell of the sector on the other side; in no sector it looks
/// nowhere.
pub proof fn gaze_goes_where_the_sector_is(
    s: i32,
    columns: usize,
    frame: Option<GazeFrame>,
    other: Option<GazeFrame>,
    ahead: Option<GazeFrame>,
)
    requires
        0 <= s < 16,
        10 * columns + 8 <= usize::MAX,
        call_ensures(gaze_frame, (Some(s), columns), frame),
        call_ensures(gaze_frame, (Some((16 - s) as i32), columns), other) || s <= 8,
        call_ensures(gaze_frame, (None, columns), ahead),
    ensures
        frame matches Some(f) && {
            &&& s <= 7 ==> f.index == 9 * columns + s && !f.flip_h
            &&& s == 8 ==> f.index == 10 * columns && !f.flip_h
            &&& s > 8 ==> f.index == 9 * columns + (16 - s) && f.flip_h
            &&& s > 8 ==> (other matches Some(g) && g.index == f.index && !g.flip_h)
        },
        ahead is None,
{
    assert((9 + 0) * columns == 9 * columns && (9 + 1) * columns == 10 * columns) by (nonlinear_arith);
    assert(s <= 7 ==> s / 8 == 0 && s % 8 == s);
    assert(s > 8 ==> (16 - s) / 8 == 0 && (16 - s) % 8 == 16 - s);
}

/// Sectors fill their rows eight by eight, from the left.
pub proof fn sectors_fill_their_rows(sector: i32, columns: usize, index: usize)
    requires
        0 <= sector < 16,
        call_ensures(sector_to_index, (sector, columns), index),
    ensures
        sector < 8 ==> index == 9 * columns + sector,
        sector >= 8 ==> index == 10 * columns + (sector - 8),
{
    assert((9 + 0) * columns == 9 * columns && (9 + 1) * columns == 10 * columns) by (nonlinear_arith);
    assert(sector < 8 ==> sector / 8 == 0 && sector % 8 == sector);
    assert(sector >= 8 ==> sector / 8 == 1 && sector % 8 == sector - 8);
}

} // verus!
