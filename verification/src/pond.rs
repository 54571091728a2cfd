//! Pond: the layout of the water's height field.
//!
//! The surface is a grid of cells stored row by row, each row padded out to a multiple of
//! [`ROW_ALIGN`] cells so that the field can be uploaded to the GPU as it stands. This module
//! owns that layout: how wide a stored row is, where a cell is kept, which cells the wave
//! equation runs over, and which cells a disturbance touches. The heights themselves, and the
//! wave equation that moves them, are measured rather than counted and live with the caller.

use vstd::prelude::*;
use crate::grid::{at, lemma_at_distinct, lemma_at_inside};
use crate::payload::{parse_size, size_from_text, size_payload, size_text};

verus! {

/// Name of the resize command on the replayable command channel.
pub const FIELD_COMMAND: &'static str = "field";
/// The most cells the pond will hold. Past this the cells grow rather than the count.
pub const MAX_CELLS: u32 = 1_100_000;
/// Rows of the height field are padded to a multiple of this many cells, so that a row is a
/// whole number of 256-byte blocks.
pub const ROW_ALIGN: u32 = 64;
/// How many cells deep the absorbing band at the edge of the pond is.
pub const SHORE: u32 = 36;

/// The width a row of `across` cells is stored at: `across` rounded up to a whole number of
/// [`ROW_ALIGN`] blocks.
pub open spec fn stride_spec(across: int) -> int {
    ((across + ROW_ALIGN - 1) / (ROW_ALIGN as int)) * ROW_ALIGN
}

/// The stride is the least multiple of the row alignment that holds the row.
pub proof fn the_stride_holds_the_row(across: int)
    requires
        0 <= across,
    ensures
        stride_spec(across) % (ROW_ALIGN as int) == 0,
        across <= stride_spec(across) < across + ROW_ALIGN,
{
    let q = (across + ROW_ALIGN - 1) / (ROW_ALIGN as int);
    assert(q * 64 == stride_spec(across));
    assert((q * 64) % 64 == 0) by (nonlinear_arith)
        requires
            q >= 0,
    ;
}

/// The stride a row of this many cells is stored at.
pub fn stride_for(across: u32) -> (stride: u32)
    requires
        across <= u32::MAX - (ROW_ALIGN - 1),
    ensures
        stride == stride_spec(across as int),
        stride % ROW_ALIGN == 0,
        across <= stride < across + ROW_ALIGN,
{
    proof {
        the_stride_holds_the_row(across as int);
    }
    let blocks = across / ROW_ALIGN + if across % ROW_ALIGN == 0 {
        0
    } else {
        1
    };
    assert(blocks == (across + ROW_ALIGN - 1) / (ROW_ALIGN as int));
    blocks * ROW_ALIGN
}

/// How the water is laid out: cells across and down, and the stride its rows are stored at.
pub struct Water {
    /// Cells across.
    pub across: u32,
    /// Cells down.
    pub down: u32,
    /// Cells from the start of one row to the start of the next. At least `across`, and a
    /// multiple of [`ROW_ALIGN`]. The cells past `across` in a row are slack, not read.
    pub stride: u32,
}

impl Water {
    /// At least three cells each way, so that there is an interior; no more than [`MAX_CELLS`]
    /// cells in all; rows at their stride; and so the whole stored field, slack included,
    /// countable in a `u32`.
    pub open spec fn wf(&self) -> bool {
        &&& self.across >= 3
        &&& self.down >= 3
        &&& (self.across as int) * (self.down as int) <= MAX_CELLS
        &&& self.stride == stride_spec(self.across as int)
        &&& (self.stride as int) * (self.down as int) <= u32::MAX
    }

    /// How many cells are stored, slack included.
    pub open spec fn stored(&self) -> int {
        (self.stride as int) * (self.down as int)
    }

    /// A field `across` by `down`, its rows padded to the stride.
    pub fn new(across: u32, down: u32) -> (water: Water)
        requires
            across >= 3,
            down >= 3,
            (across as int) * (down as int) <= MAX_CELLS,
        ensures
            water.wf(),
            water.across == across,
            water.down == down,
            water.stride == stride_spec(across as int),
    {
        proof {
            assert(across <= MAX_CELLS && down <= MAX_CELLS) by (nonlinear_arith)
                requires
                    across >= 3,
                    down >= 3,
                    (across as int) * (down as int) <= 1_100_000,
            ;
        }
        let stride = stride_for(across);
        proof {
            assert((stride as int) * (down as int) <= u32::MAX) by (nonlinear_arith)
                requires
                    stride < across + 64,
                    across >= 3,
                    down >= 3,
                    (across as int) * (down as int) <= 1_100_000,
            ;
        }
        Water { across, down, stride }
    }

    /// Cells in the field, not counting the slack at the end of each row.
    pub fn area(&self) -> (cells: u64)
        ensures
            cells == (self.across as int) * (self.down as int),
            self.wf() ==> cells <= MAX_CELLS,
    {
        proof {
            crate::grid::lemma_area_fits(self.across, self.down);
        }
        self.across as u64 * self.down as u64
    }

    /// Where cell (`x`, `y`) is stored. `None` off the field, where the water counts as level.
    pub fn cell(&self, x: i32, y: i32) -> (index: Option<usize>)
        requires
            self.wf(),
        ensures
            index == if 0 <= x < self.across && 0 <= y < self.down {
                Some(at(self.stride as int, y as int, x as int) as usize)
            } else {
                None
            },
            index matches Some(i) ==> i < self.stored(),
    {
        if x < 0 || y < 0 || x as i64 >= self.across as i64 || y as i64 >= self.down as i64 {
            return None;
        }
        proof {
            the_stride_holds_the_row(self.across as int);
            lemma_at_inside(self.stride as int, self.down as int, y as int, x as int);
        }
        Some((y as u32 * self.stride + x as u32) as usize)
    }

    /// The cells a disturbance centred on (`cx`, `cy`) reaches `reach` cells out from: an
    /// inclusive box, clipped to the interior, one cell in from the edge, which is where the wave
    /// equation runs. Empty, with its far corner before its near one, when nothing is left.
    pub fn footprint_box(&self, cx: i32, cy: i32, reach: i32) -> (corners: (i32, i32, i32, i32))
        requires
            self.wf(),
            0 <= reach,
            i32::MIN <= cx - reach,
            cx + reach <= i32::MAX,
            i32::MIN <= cy - reach,
            cy + reach <= i32::MAX,
        ensures
            corners.0 == if cx - reach > 1 { cx - reach } else { 1 },
            corners.1 == if cx + reach < self.across - 2 { cx + reach } else { self.across - 2 },
            corners.2 == if cy - reach > 1 { cy - reach } else { 1 },
            corners.3 == if cy + reach < self.down - 2 { cy + reach } else { self.down - 2 },
            1 <= corners.0,
            corners.1 <= self.across - 2,
            1 <= corners.2,
            corners.3 <= self.down - 2,
    {
        proof {
            the_stride_holds_the_row(self.across as int);
            assert(self.stride <= 0x7fff_ffff) by (nonlinear_arith)
                requires
                    (self.stride as int) * (self.down as int) <= u32::MAX,
                    self.down >= 3,
            ;
        }
        let right = (self.across - 2) as i64;
        let bottom = (self.down - 2) as i64;
        let x0 = if cx - reach > 1 {
            cx - reach
        } else {
            1
        };
        let x1 = if ((cx + reach) as i64) < right {
            cx + reach
        } else {
            right as i32
        };
        let y0 = if cy - reach > 1 {
            cy - reach
        } else {
            1
        };
        let y1 = if ((cy + reach) as i64) < bottom {
            cy + reach
        } else {
            bottom as i32
        };
        (x0, x1, y0, y1)
    }
}

/// How far each of `count` cells in a line lies from the nearer end of it: what the absorbing
/// band at the shore is worked out from.
pub fn shore_distances(count: u32) -> (distances: Vec<u32>)
    ensures
        distances@.len() == count,
        forall|i: int|
            0 <= i < count ==> #[trigger] distances@[i] == if i <= count - 1 - i {
                i
            } else {
                count - 1 - i
            },
{
    let mut distances: Vec<u32> = Vec::new();
    let mut i: u32 = 0;
    while i < count
        invariant
            i <= count,
            distances@.len() == i,
            forall|j: int|
                0 <= j < i ==> #[trigger] distances@[j] == if j <= count - 1 - j {
                    j
                } else {
                    count - 1 - j
                },
        decreases count - i,
    {
        let other = count - 1 - i;
        distances.push(if i <= other {
            i
        } else {
            other
        });
        i = i + 1;
    }
    distances
}

/// The wave equation's stencil never leaves the field: from any interior cell, the cells either
/// side of it and the cells above and below it are all stored, each in a place of its own.
pub proof fn the_stencil_stays_on_the_field(water: Water, x: int, y: int)
    requires
        water.wf(),
        1 <= x <= water.across - 2,
        1 <= y <= water.down - 2,
    ensures
        ({
            let s = water.stride as int;
            let i = at(s, y, x);
            &&& 0 <= i - s
            &&& i + s < water.stored()
            &&& i - 1 == at(s, y, x - 1)
            &&& i + 1 == at(s, y, x + 1)
            &&& i - s == at(s, y - 1, x)
            &&& i + s == at(s, y + 1, x)
        }),
{
    let s = water.stride as int;
    the_stride_holds_the_row(water.across as int);
    lemma_at_inside(s, water.down as int, y - 1, x);
    lemma_at_inside(s, water.down as int, y + 1, x);
    assert(at(s, y - 1, x) == at(s, y, x) - s) by (nonlinear_arith);
    assert(at(s, y + 1, x) == at(s, y, x) + s) by (nonlinear_arith);
}

/// Every cell a disturbance touches is its own: two different cells of its box are stored in
/// two different places, both inside the field.
pub proof fn a_footprint_touches_each_cell_once(water: Water, x1: int, y1: int, x2: int, y2: int)
    requires
        water.wf(),
        1 <= x1 <= water.across - 2,
        1 <= y1 <= water.down - 2,
        1 <= x2 <= water.across - 2,
        1 <= y2 <= water.down - 2,
        x1 != x2 || y1 != y2,
    ensures
        at(water.stride as int, y1, x1) != at(water.stride as int, y2, x2),
        0 <= at(water.stride as int, y1, x1) < water.stored(),
{
    the_stride_holds_the_row(water.across as int);
    lemma_at_distinct(water.stride as int, y1, x1, y2, x2);
    lemma_at_inside(water.stride as int, water.down as int, y1, x1);
}

/// Encode a window size for [`FIELD_COMMAND`]: whole pixels, so it round-trips without loss.
pub fn field_payload(width: i32, height: i32) -> (text: String)
    ensures
        text@ == size_text(width, height),
{
    size_payload(width, height)
}

/// Decode a [`field_payload`]. `None` for anything malformed or degenerate.
pub fn parse_field(payload: &str) -> (size: Option<(i32, i32)>)
    ensures
        size == size_from_text(payload@),
{
    parse_size(payload)
}


// ---------------------------------------------------------------------------------------
// the palettes
// ---------------------------------------------------------------------------------------

/// The palettes' names, in the order `c` walks them.
pub const LOOK_NAMES: [&'static str; 6] = ["dusk", "lagoon", "ember", "moon", "meadow", "aurora"];

/// The palettes, in the order `c` walks them: five stops each from the deepest to the brightest,
/// each a display colour with red, green and blue written in hundredths, the numbers you would
/// type into a paint program. All of them analogous, and all with a dark bottom, because the
/// water is mostly bottom: a ring is a bright edge on a dark field.
pub const LOOKS: [[[u8; 3]; 5]; 6] = [
    // dusk
    [
        [5, 4, 16],
        [22, 11, 38],
        [56, 22, 44],
        [93, 48, 40],
        [100, 84, 64],
    ],
    // lagoon
    [
        [1, 10, 17],
        [3, 28, 36],
        [9, 54, 56],
        [44, 81, 73],
        [91, 97, 88],
    ],
    // ember
    [
        [11, 2, 6],
        [36, 5, 10],
        [72, 19, 10],
        [96, 55, 18],
        [100, 89, 58],
    ],
    // moon
    [
        [3, 4, 8],
        [9, 12, 22],
        [25, 31, 44],
        [57, 63, 72],
        [95, 96, 99],
    ],
    // meadow
    [
        [2, 8, 6],
        [7, 23, 14],
        [21, 47, 24],
        [60, 78, 36],
        [97, 98, 74],
    ],
    // aurora
    [
        [2, 3, 11],
        [4, 19, 30],
        [5, 54, 46],
        [42, 86, 62],
        [88, 78, 96],
    ],
];

/// How bright a stop looks, in millionths: its luminance, the three channels weighed by how
/// strongly the eye takes each of them in.
pub open spec fn luma(rgb: [u8; 3]) -> int {
    2126 * rgb@[0] + 7152 * rgb@[1] + 722 * rgb@[2]
}

/// Whether a palette climbs: every stop brighter than the one before it, starting dark, under
/// twelve hundredths, and ending light, over six tenths.
pub open spec fn climbs(stops: Seq<[u8; 3]>) -> bool {
    &&& stops.len() == 5
    &&& luma(stops[0]) < luma(stops[1])
    &&& luma(stops[1]) < luma(stops[2])
    &&& luma(stops[2]) < luma(stops[3])
    &&& luma(stops[3]) < luma(stops[4])
    &&& luma(stops[0]) < 120_000
    &&& luma(stops[4]) > 600_000
}

/// Every palette climbs from dark to light.
pub proof fn every_palette_climbs_from_dark_to_light()
    ensures
        forall|i: int| 0 <= i < LOOKS@.len() ==> climbs(#[trigger] LOOKS@[i]@),
{
    assert(LOOKS@[0]@ =~= seq![[5u8, 4, 16], [22u8, 11, 38], [56u8, 22, 44], [93u8, 48, 40], [100u8, 84, 64]]);
    assert(LOOKS@[1]@ =~= seq![[1u8, 10, 17], [3u8, 28, 36], [9u8, 54, 56], [44u8, 81, 73], [91u8, 97, 88]]);
    assert(LOOKS@[2]@ =~= seq![[11u8, 2, 6], [36u8, 5, 10], [72u8, 19, 10], [96u8, 55, 18], [100u8, 89, 58]]);
    assert(LOOKS@[3]@ =~= seq![[3u8, 4, 8], [9u8, 12, 22], [25u8, 31, 44], [57u8, 63, 72], [95u8, 96, 99]]);
    assert(LOOKS@[4]@ =~= seq![[2u8, 8, 6], [7u8, 23, 14], [21u8, 47, 24], [60u8, 78, 36], [97u8, 98, 74]]);
    assert(LOOKS@[5]@ =~= seq![[2u8, 3, 11], [4u8, 19, 30], [5u8, 54, 46], [42u8, 86, 62], [88u8, 78, 96]]);
}

/// The palette after `current`, in the order `c` walks them, back to the first after the last.
pub fn next_look(current: usize) -> (next: usize)
    requires
        current < LOOKS.len(),
    ensures
        next == (current + 1) % (LOOKS@.len() as int),
        next < LOOKS@.len(),
{
    (current + 1) % LOOKS.len()
}

} // verus!
