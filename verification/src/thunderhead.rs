//! Thunderhead: the sky, as a field of small integers.
//!
//! Every physical pixel of the window is one cell of a [`Field`], and every cell holds one
//! *material*: a sky band, the sun, a band of desert, the shadow of a cloud on that desert, a
//! silhouette on the horizon, a band of cloud at one of three distances, or ink. What those
//! materials look like is a palette's business; this module decides where they go once the
//! shapes are known: how the materials are laid out, how a shadow darkens the sand, how a
//! finished cloud is inked and copied onto the window, how the clouds waiting to be regrown
//! are queued, and how the work of growing one is split across ticks.

use vstd::prelude::*;
use std::collections::VecDeque;
use crate::grid::{at, lemma_at_distinct, lemma_at_inside};
use crate::payload::{parse_window_size, window_from_text, window_payload as write_window, window_text};
use crate::text::{decimal, digit_char, is_digit, lemma_decimal_digits, lemma_digit_char, write_decimal};
use crate::grid;

verus! {

// ---------------------------------------------------------------------------------------
// materials
// ---------------------------------------------------------------------------------------

/// The line. One material for every contour in the picture.
pub const INK: u8 = 0;
/// First sky band. Band 0 is the zenith and the last one sits on the horizon.
pub const SKY_FIRST: u8 = 1;
/// How many bands the sky is stepped into.
pub const SKY_BANDS: u8 = 16;
/// The sun's disc.
pub const SUN: u8 = SKY_FIRST + SKY_BANDS;
/// First desert band. Band 0 lies against the horizon, the last one at the viewer's feet.
pub const GROUND_FIRST: u8 = SUN + 1;
/// How many bands the desert is stepped into.
pub const GROUND_BANDS: u8 = 6;
/// The same bands again, in the shadow of a cloud. Kept parallel to [`GROUND_FIRST`] so
/// shading a pixel is one addition.
pub const SHADOW_FIRST: u8 = GROUND_FIRST + GROUND_BANDS;
/// Silhouettes standing on the horizon, near one first.
pub const MESA_FIRST: u8 = SHADOW_FIRST + GROUND_BANDS;
/// How many distances the mesas come in.
pub const MESA_DEPTHS: u8 = 2;
/// Stones lying on the sand.
pub const STONE: u8 = MESA_FIRST + MESA_DEPTHS;
/// First cloud material. Clouds are laid out tier by tier: `CLOUD_FIRST + tier *
/// CLOUD_STRIDE + band`, and the band one past the last is that tier's ink.
pub const CLOUD_FIRST: u8 = STONE + 1;
/// How many bands a cloud is shaded in.
pub const CLOUD_BANDS: u8 = 10;
/// Materials per tier: its bands, then its ink.
pub const CLOUD_STRIDE: u8 = CLOUD_BANDS + 1;
/// How many distances clouds come in.
pub const TIER_COUNT: usize = 3;
/// How many materials there are altogether. Comfortably inside a byte, which is the point.
pub const MATERIALS: usize = 66;
/// Ink, inside a cloud's own bitmap, where the values run `0` for open sky and
/// `1..=CLOUD_BANDS` for the bands.
pub const LOCAL_INK: u8 = CLOUD_BANDS + 1;
/// Ink a contour every this many bands.
pub const CONTOUR_EVERY: u8 = 3;
/// How many clouds are in the air at once.
pub const DRIFTERS: usize = 7;
/// Which tier each of them belongs to, far ones first. The list doubles as the depth order
/// the compositor draws in, so it must stay sorted.
pub const DEPTHS: [usize; DRIFTERS] = [0, 0, 0, 1, 1, 2, 2];
/// How many texels of cloud-building are paid for per tick.
pub const FORGE_BUDGET: u64 = 2_000_000;
/// Replayable command: the window reporting its size in physical pixels ("width height").
pub const RESIZE_COMMAND: &'static str = "window";
/// What the window opens at before the real screen size arrives on the command channel.
pub const DEFAULT_WINDOW: (u32, u32) = (1600, 1000);

/// Every material has its own number, they run without a gap from ink to the last cloud's ink,
/// and all of them fit in a byte.
pub proof fn the_materials_fit_in_a_byte()
    ensures
        MATERIALS == CLOUD_FIRST + TIER_COUNT * CLOUD_STRIDE,
        MATERIALS <= 256,
        INK < SKY_FIRST,
        SKY_FIRST + SKY_BANDS == SUN,
        SUN < GROUND_FIRST,
        GROUND_FIRST + GROUND_BANDS == SHADOW_FIRST,
        SHADOW_FIRST + GROUND_BANDS == MESA_FIRST,
        MESA_FIRST + MESA_DEPTHS == STONE,
        STONE < CLOUD_FIRST,
{
}

/// The depth order is sorted and names real tiers.
pub proof fn the_drifters_are_in_depth_order()
    ensures
        forall|i: int, j: int| 0 <= i <= j < DRIFTERS ==> DEPTHS@[i] <= DEPTHS@[j],
        forall|i: int| 0 <= i < DRIFTERS ==> DEPTHS@[i] < TIER_COUNT,
{
    assert(DEPTHS@ =~= seq![0usize, 0, 0, 1, 1, 2, 2]);
}

/// Whether a material is a band of open desert.
pub open spec fn is_sand(material: u8) -> bool {
    GROUND_FIRST <= material < GROUND_FIRST + GROUND_BANDS
}

/// The shadowed twin of a desert band, as a function.
pub open spec fn shade_spec(material: u8) -> u8 {
    if is_sand(material) {
        (material + GROUND_BANDS) as u8
    } else {
        material
    }
}

/// The shadowed twin of a desert band. Anything else is left alone: ink stays ink, and a stone
/// in shadow is the same stone.
pub fn shade(material: u8) -> (shaded: u8)
    ensures
        shaded == shade_spec(material),
{
    if GROUND_FIRST <= material && material < GROUND_FIRST + GROUND_BANDS {
        material + GROUND_BANDS
    } else {
        material
    }
}

/// A shadow only ever darkens sand, always into the same band of shadow, and darkening what is
/// already in shadow changes nothing: two clouds over one patch of sand make one shadow.
pub proof fn shade_is_one_coat(material: u8)
    ensures
        shade_spec(shade_spec(material)) == shade_spec(material),
        is_sand(material) ==> shade_spec(material) - SHADOW_FIRST == material - GROUND_FIRST,
        !is_sand(material) ==> shade_spec(material) == material,
        GROUND_FIRST <= material < SHADOW_FIRST ==> shade_spec(material) == material + GROUND_BANDS,
        material < GROUND_FIRST || SHADOW_FIRST <= material ==> shade_spec(material) == material,
{
}

/// A shadow falls on its own column and rows only: there each desert band turns into its
/// shadowed twin and anything else stays as it was, and every other cell is left alone.
pub proof fn a_shadow_falls_where_it_is_cast(before: Seq<u8>, fw: int, col: int, y0: int, y1: int, r: int, c: int)
    ensures
        !(c == col && y0 <= r < y1) ==> shaded_column(before, fw, col, y0, y1, r, c) == before[at(fw, r, c)],
        c == col && y0 <= r < y1 && GROUND_FIRST <= before[at(fw, r, c)] < SHADOW_FIRST
            ==> shaded_column(before, fw, col, y0, y1, r, c) == before[at(fw, r, c)] + GROUND_BANDS,
        c == col && y0 <= r < y1 && !(GROUND_FIRST <= before[at(fw, r, c)] < SHADOW_FIRST)
            ==> shaded_column(before, fw, col, y0, y1, r, c) == before[at(fw, r, c)],
{
}

// ---------------------------------------------------------------------------------------
// grids of materials
// ---------------------------------------------------------------------------------------

/// A finished cloud: a bitmap of bands and ink, and the underside that casts its shadow.
#[derive(Clone, Default)]
pub struct Anvil {
    /// Texels across.
    pub width: u32,
    /// Texels down.
    pub height: u32,
    /// `0` for open sky, `1..=CLOUD_BANDS` for a band, and one past that for ink.
    pub cells: Vec<u8>,
    /// The row its flat base sits on. What the cloud is hung from when it is placed.
    pub base: u32,
    /// How much of the base band each column carries, `0..=255`. The shape of the shadow.
    pub hem: Vec<u8>,
}

impl Anvil {
    /// A bitmap of the size it claims, holding only sky, bands and ink.
    pub open spec fn wf(&self) -> bool {
        &&& self.cells@.len() == (self.width as int) * (self.height as int)
        &&& forall|i: int| 0 <= i < self.cells@.len() ==> #[trigger] self.cells@[i] <= LOCAL_INK
    }

    /// Whether it has been built yet.
    pub fn ready(&self) -> (built: bool)
        ensures
            built == (self.cells@.len() > 0),
    {
        !self.cells.is_empty()
    }
}

/// The window, one cell per physical pixel, with a material in each.
#[derive(Clone, Default)]
pub struct Field {
    /// Pixels across.
    pub width: u32,
    /// Pixels down.
    pub height: u32,
    /// One material per pixel, `cells[row * width + col]`, row 0 at the top.
    pub cells: Vec<u8>,
}

impl Field {
    /// As many cells as pixels.
    pub open spec fn wf(&self) -> bool {
        self.cells@.len() == (self.width as int) * (self.height as int)
    }
}

/// The desert as it arrives at a given window size. Nothing in it moves, so it is drawn once
/// and copied into the [`Field`] on every tick.
#[derive(Clone, Default)]
pub struct Backdrop {
    /// Pixels across.
    pub width: u32,
    /// Pixels down.
    pub height: u32,
    /// The row the horizon's line sits on.
    pub horizon: u32,
    /// One material per pixel, `cells[row * width + col]`, row 0 at the top.
    pub cells: Vec<u8>,
}

/// Whether every cell holds a material the palette knows.
pub open spec fn known_materials(cells: Seq<u8>) -> bool {
    forall|i: int| 0 <= i < cells.len() ==> #[trigger] cells[i] < MATERIALS
}

/// Start a frame from the desert: the backdrop copied over the field, when the two are the
/// same size and not empty. Whether it was.
pub fn lay_backdrop(field: &mut Field, backdrop: &Backdrop) -> (laid: bool)
    ensures
        laid == (old(field).cells@.len() == backdrop.cells@.len() && backdrop.cells@.len() > 0),
        laid ==> final(field).cells@ == backdrop.cells@,
        !laid ==> final(field).cells@ == old(field).cells@,
        final(field).width == old(field).width,
        final(field).height == old(field).height,
{
    if field.cells.len() != backdrop.cells.len() || field.cells.is_empty() {
        return false;
    }
    field.cells = backdrop.cells.clone();
    assert(field.cells@ =~= backdrop.cells@);
    true
}

/// What darkening rows `y0..y1` of column `col` leaves at row `r`, column `c`.
pub open spec fn shaded_column(before: Seq<u8>, fw: int, col: int, y0: int, y1: int, r: int, c: int) -> u8 {
    if c == col && y0 <= r < y1 {
        shade_spec(before[at(fw, r, c)])
    } else {
        before[at(fw, r, c)]
    }
}

/// A patch of sand under a cloud: rows `y0..y1` of column `col` darkened.
pub fn shade_column(field: &mut Field, col: u32, y0: u32, y1: u32)
    requires
        old(field).wf(),
        col < old(field).width,
        y0 <= y1 <= old(field).height,
    ensures
        final(field).wf(),
        known_materials(old(field).cells@) ==> known_materials(final(field).cells@),
        final(field).width == old(field).width,
        final(field).height == old(field).height,
        forall|r: int, c: int|
            0 <= r < old(field).height && 0 <= c < old(field).width ==> (#[trigger] final(field).cells@[at(old(field).width as int, r, c)])
                == shaded_column(old(field).cells@, old(field).width as int, col as int, y0 as int, y1 as int, r, c),
{
    let w = field.width as usize;
    let ghost fw = field.width as int;
    let ghost fh = field.height as int;
    let ghost before = field.cells@;
    let mut y = y0;
    while y < y1
        invariant
            y0 <= y <= y1 <= fh,
            fw == field.width,
            fh == field.height,
            w == fw,
            col < fw,
            field.wf(),
            known_materials(before) ==> known_materials(field.cells@),
            forall|r: int, c: int|
                0 <= r < fh && 0 <= c < fw ==> #[trigger] field.cells@[at(fw, r, c)] == if c == col
                    && y0 <= r < y {
                    shade_spec(before[at(fw, r, c)])
                } else {
                    before[at(fw, r, c)]
                },
        decreases y1 - y,
    {
        proof {
            lemma_at_inside(fw, fh, y as int, col as int);
            assert(field.cells@.len() == field.cells.len());
        }
        let i = y as usize * w + col as usize;
        let shaded = shade(field.cells[i]);
        field.cells.set(i, shaded);
        proof {
            assert forall|r: int, c: int| 0 <= r < fh && 0 <= c < fw implies #[trigger] field.cells@[at(fw, r, c)]
                == if c == col && y0 <= r < y + 1 {
                shade_spec(before[at(fw, r, c)])
            } else {
                before[at(fw, r, c)]
            } by {
                lemma_at_inside(fw, fh, r, c);
                if r != y || c != col {
                    lemma_at_distinct(fw, r, c, y as int, col as int);
                }
            }
        }
        y = y + 1;
    }
}

/// What a cloud blitted with its top left corner at (`left`, `top`) leaves at row `r`, column `c`
/// of a field: the cloud's band or ink in that tier's materials where the cloud is, and
/// whatever was there before where it is open sky or off the cloud.
pub open spec fn blitted(
    before: Seq<u8>,
    fw: int,
    anvil: Anvil,
    left: int,
    top: int,
    tier: int,
    r: int,
    c: int,
) -> u8 {
    let inside = top <= r < top + anvil.height && left <= c < left + anvil.width;
    let value = if inside {
        anvil.cells@[at(anvil.width as int, r - top, c - left)]
    } else {
        0u8
    };
    if value != 0 {
        (CLOUD_FIRST + (tier % (TIER_COUNT as int)) * CLOUD_STRIDE + value - 1) as u8
    } else {
        before[at(fw, r, c)]
    }
}

/// Each tier of cloud is painted in materials of its own: where a cloud of a real tier carries
/// band or ink `v`, the field gets that tier's `v`th material, `CLOUD_FIRST + tier *
/// CLOUD_STRIDE + v - 1`, which lies inside the tier's block of [`CLOUD_STRIDE`] materials and
/// so is never a material of another tier; and where the cloud is open sky or absent the field
/// keeps what it had.
pub proof fn each_tier_paints_in_its_own_materials(
    before: Seq<u8>,
    fw: int,
    anvil: Anvil,
    left: int,
    top: int,
    tier: int,
    r: int,
    c: int,
)
    requires
        anvil.wf(),
        0 <= tier < TIER_COUNT,
    ensures
        ({
            let inside = top <= r < top + anvil.height && left <= c < left + anvil.width;
            let v = anvil.cells@[at(anvil.width as int, r - top, c - left)];
            &&& inside && v != 0 ==> blitted(before, fw, anvil, left, top, tier, r, c) == CLOUD_FIRST
                + tier * CLOUD_STRIDE + v - 1
            &&& inside && v != 0 ==> CLOUD_FIRST + tier * CLOUD_STRIDE <= blitted(before, fw, anvil, left, top, tier, r, c)
                < CLOUD_FIRST + (tier + 1) * CLOUD_STRIDE
            &&& !(inside && v != 0) ==> blitted(before, fw, anvil, left, top, tier, r, c) == before[at(fw, r, c)]
        }),
{
    if top <= r < top + anvil.height && left <= c < left + anvil.width {
        lemma_at_inside(anvil.width as int, anvil.height as int, r - top, c - left);
    }
}

/// Two clouds of different tiers never leave the same material behind.
pub proof fn tiers_never_share_a_material(
    b1: Seq<u8>,
    b2: Seq<u8>,
    fw: int,
    a1: Anvil,
    a2: Anvil,
    left1: int,
    top1: int,
    left2: int,
    top2: int,
    t1: int,
    t2: int,
    r1: int,
    c1: int,
    r2: int,
    c2: int,
)
    requires
        a1.wf(),
        a2.wf(),
        0 <= t1 < TIER_COUNT,
        0 <= t2 < TIER_COUNT,
        t1 != t2,
        top1 <= r1 < top1 + a1.height && left1 <= c1 < left1 + a1.width,
        top2 <= r2 < top2 + a2.height && left2 <= c2 < left2 + a2.width,
        a1.cells@[at(a1.width as int, r1 - top1, c1 - left1)] != 0,
        a2.cells@[at(a2.width as int, r2 - top2, c2 - left2)] != 0,
    ensures
        blitted(b1, fw, a1, left1, top1, t1, r1, c1) != blitted(b2, fw, a2, left2, top2, t2, r2, c2),
{
    each_tier_paints_in_its_own_materials(b1, fw, a1, left1, top1, t1, r1, c1);
    each_tier_paints_in_its_own_materials(b2, fw, a2, left2, top2, t2, r2, c2);
}

/// Blit one cloud onto the field, clipped to it, skipping open sky. The cloud's top left corner
/// goes at column `left`, row `top`, which may lie off the field in any direction.
pub fn blit(field: &mut Field, anvil: &Anvil, left: i64, top: i64, tier: usize)
    requires
        old(field).wf(),
        anvil.wf(),
        -0x4000_0000_0000_0000 <= left <= 0x4000_0000_0000_0000,
        -0x4000_0000_0000_0000 <= top <= 0x4000_0000_0000_0000,
    ensures
        final(field).wf(),
        final(field).width == old(field).width,
        final(field).height == old(field).height,
        known_materials(old(field).cells@) ==> known_materials(final(field).cells@),
        forall|r: int, c: int|
            0 <= r < old(field).height && 0 <= c < old(field).width ==> (#[trigger] final(field).cells@[at(old(field).width as int, r, c)]) == blitted(
                old(field).cells@,
                old(field).width as int,
                *anvil,
                left as int,
                top as int,
                tier as int,
                r,
                c,
            ),
{
    let ghost before = field.cells@;
    let ghost fw = field.width as int;
    let ghost fh = field.height as int;
    let ghost aw = anvil.width as int;
    let ghost ah = anvil.height as int;
    let base: u8 = CLOUD_FIRST + (tier % TIER_COUNT) as u8 * CLOUD_STRIDE;
    let width = field.width as i64;
    let x0 = if left > 0 {
        left
    } else {
        0
    };
    let aw64 = anvil.width as i64;
    let ah64 = anvil.height as i64;
    let height = field.height as i64;
    let x1 = if left + aw64 < width {
        left + aw64
    } else {
        width
    };
    let y0 = if top > 0 {
        top
    } else {
        0
    };
    let y1 = if top + ah64 < height {
        top + ah64
    } else {
        height
    };
    let mut row = y0;
    while row < y1
        invariant
            fw == field.width,
            fh == field.height,
            aw == anvil.width,
            ah == anvil.height,
            field.wf(),
            anvil.wf(),
            known_materials(before) ==> known_materials(field.cells@),
            base == CLOUD_FIRST + (tier % TIER_COUNT) as u8 * CLOUD_STRIDE,
            -0x4000_0000_0000_0000 <= left <= 0x4000_0000_0000_0000,
            -0x4000_0000_0000_0000 <= top <= 0x4000_0000_0000_0000,
            x0 == (if left > 0 { left } else { 0 }),
            x1 == (if left + aw < fw { left + aw } else { fw }),
            y0 == (if top > 0 { top } else { 0 }),
            y1 == (if top + ah < fh { top + ah } else { fh }),
            y0 <= row,
            row <= y1 || y1 < y0,
            forall|r: int, c: int|
                0 <= r < fh && 0 <= c < fw ==> #[trigger] field.cells@[at(fw, r, c)] == if r
                    < row {
                    blitted(before, fw, *anvil, left as int, top as int, tier as int, r, c)
                } else {
                    before[at(fw, r, c)]
                },
        decreases y1 - row,
    {
        let mut col = x0;
        while col < x1
            invariant
                fw == field.width,
                fh == field.height,
                aw == anvil.width,
                ah == anvil.height,
                field.wf(),
                anvil.wf(),
                known_materials(before) ==> known_materials(field.cells@),
                base == CLOUD_FIRST + (tier % TIER_COUNT) as u8 * CLOUD_STRIDE,
                -0x4000_0000_0000_0000 <= left <= 0x4000_0000_0000_0000,
                -0x4000_0000_0000_0000 <= top <= 0x4000_0000_0000_0000,
                x0 == (if left > 0 { left } else { 0 }),
                x1 == (if left + aw < fw { left + aw } else { fw }),
                y0 == (if top > 0 { top } else { 0 }),
                y1 == (if top + ah < fh { top + ah } else { fh }),
                y0 <= row < y1,
                x0 <= col,
                col <= x1 || x1 < x0,
                forall|r: int, c: int|
                    0 <= r < fh && 0 <= c < fw ==> #[trigger] field.cells@[at(fw, r, c)] == if r
                        < row || (r == row && c < col) {
                        blitted(before, fw, *anvil, left as int, top as int, tier as int, r, c)
                    } else {
                        before[at(fw, r, c)]
                    },
            decreases x1 - col,
        {
            proof {
                lemma_at_inside(aw, ah, (row - top) as int, (col - left) as int);
                lemma_at_inside(fw, fh, row as int, col as int);
                assert(field.cells@.len() == field.cells.len());
                assert(anvil.cells@.len() == anvil.cells.len());
            }
            let src = (row - top) as usize * anvil.width as usize + (col - left) as usize;
            let dst = row as usize * field.width as usize + col as usize;
            let value = anvil.cells[src];
            if value != 0 {
                field.cells.set(dst, base + value - 1);
            }
            proof {
                assert forall|r: int, c: int| 0 <= r < fh && 0 <= c < fw implies #[trigger] field.cells@[at(fw, r, c)]
                    == if r < row || (r == row && c < col + 1) {
                    blitted(before, fw, *anvil, left as int, top as int, tier as int, r, c)
                } else {
                    before[at(fw, r, c)]
                } by {
                    lemma_at_inside(fw, fh, r, c);
                    if r != row || c != col {
                        lemma_at_distinct(fw, r, c, row as int, col as int);
                    }
                }
            }
            col = col + 1;
        }
        proof {
            assert forall|r: int, c: int| 0 <= r < fh && 0 <= c < fw implies #[trigger] field.cells@[at(fw, r, c)]
                == if r < row + 1 {
                blitted(before, fw, *anvil, left as int, top as int, tier as int, r, c)
            } else {
                before[at(fw, r, c)]
            } by {
                if r == row && c >= col {
                    assert(blitted(before, fw, *anvil, left as int, top as int, tier as int, r, c)
                        == before[at(fw, r, c)]);
                }
            }
        }
        row = row + 1;
    }
    proof {
        assert forall|r: int, c: int| 0 <= r < fh && 0 <= c < fw implies #[trigger] field.cells@[at(fw, r, c)]
            == blitted(before, fw, *anvil, left as int, top as int, tier as int, r, c) by {
            if r >= row {
                assert(blitted(before, fw, *anvil, left as int, top as int, tier as int, r, c)
                    == before[at(fw, r, c)]);
            }
        }
    }
}


// ---------------------------------------------------------------------------------------
// one cloud
// ---------------------------------------------------------------------------------------

/// The band at column `x`, row `y` of a `w` by `h` bitmap of bands, counting everything off the
/// bitmap as open sky.
pub open spec fn sample(bands: Seq<u8>, w: int, h: int, x: int, y: int) -> u8 {
    if x < 0 || y < 0 || x >= w || y >= h {
        0
    } else {
        bands[at(w, y, x)]
    }
}

/// Whether open sky lies `reach` texels from (`x`, `y`) along its row or its column.
pub open spec fn sky_at_reach(bands: Seq<u8>, w: int, h: int, x: int, y: int, reach: int) -> bool {
    ||| sample(bands, w, h, x - reach, y) == 0
    ||| sample(bands, w, h, x + reach, y) == 0
    ||| sample(bands, w, h, x, y - reach) == 0
    ||| sample(bands, w, h, x, y + reach) == 0
}

/// Whether (`x`, `y`) lies on the silhouette: open sky within `thick` texels of it, straight
/// across or straight up and down.
pub open spec fn on_silhouette(bands: Seq<u8>, w: int, h: int, x: int, y: int, thick: int) -> bool {
    exists|reach: int| 1 <= reach <= thick && #[trigger] sky_at_reach(bands, w, h, x, y, reach)
}

/// Whether the boundary from band `here` to a neighbouring `other` is one of the contours that
/// are drawn: between two different bands of cloud, every [`CONTOUR_EVERY`]th band up.
pub open spec fn drawn_contour(here: u8, other: u8) -> bool {
    &&& other != 0
    &&& other != here
    &&& (if here >= other { here } else { other }) % CONTOUR_EVERY == 0
}

/// What the ink pass leaves at (`x`, `y`): open sky stays open, the silhouette and the drawn
/// contours (looking east and south) become ink, and every other texel keeps its band.
pub open spec fn inked(bands: Seq<u8>, w: int, h: int, thick: int, x: int, y: int) -> u8 {
    let here = sample(bands, w, h, x, y);
    if here == 0 {
        0
    } else if on_silhouette(bands, w, h, x, y, thick) || drawn_contour(
        here,
        sample(bands, w, h, x + 1, y),
    ) || drawn_contour(here, sample(bands, w, h, x, y + 1)) {
        LOCAL_INK
    } else {
        here
    }
}

/// How the line is drawn, texel by texel, read straight off the bands: open sky stays open; a
/// cloud texel at the edge of the bitmap, or with open sky right beside it across or up and
/// down, is ink; so is one whose neighbour to the east or to the south is another band of
/// cloud, when the higher of the two is a multiple of [`CONTOUR_EVERY`]; and nothing else
/// becomes anything but ink or its own band.
pub proof fn the_line_follows_the_bands(bands: Seq<u8>, w: int, h: int, thick: int, x: int, y: int)
    requires
        bands.len() == w * h,
        0 <= x < w,
        0 <= y < h,
        thick >= 1,
    ensures
        bands[at(w, y, x)] == 0 ==> inked(bands, w, h, thick, x, y) == 0,
        bands[at(w, y, x)] != 0 ==> inked(bands, w, h, thick, x, y) == LOCAL_INK
            || inked(bands, w, h, thick, x, y) == bands[at(w, y, x)],
        bands[at(w, y, x)] != 0 && (x == 0 || x == w - 1 || y == 0 || y == h - 1)
            ==> inked(bands, w, h, thick, x, y) == LOCAL_INK,
        bands[at(w, y, x)] != 0 && 0 < x && bands[at(w, y, x - 1)] == 0 ==> inked(bands, w, h, thick, x, y) == LOCAL_INK,
        bands[at(w, y, x)] != 0 && x + 1 < w && bands[at(w, y, x + 1)] == 0 ==> inked(bands, w, h, thick, x, y) == LOCAL_INK,
        bands[at(w, y, x)] != 0 && 0 < y && bands[at(w, y - 1, x)] == 0 ==> inked(bands, w, h, thick, x, y) == LOCAL_INK,
        bands[at(w, y, x)] != 0 && y + 1 < h && bands[at(w, y + 1, x)] == 0 ==> inked(bands, w, h, thick, x, y) == LOCAL_INK,
        bands[at(w, y, x)] != 0 && x + 1 < w && bands[at(w, y, x + 1)] != 0 && bands[at(w, y, x + 1)] != bands[at(w, y, x)]
            && (if bands[at(w, y, x)] >= bands[at(w, y, x + 1)] { bands[at(w, y, x)] } else { bands[at(w, y, x + 1)] })
            % CONTOUR_EVERY == 0 ==> inked(bands, w, h, thick, x, y) == LOCAL_INK,
        bands[at(w, y, x)] != 0 && y + 1 < h && bands[at(w, y + 1, x)] != 0 && bands[at(w, y + 1, x)] != bands[at(w, y, x)]
            && (if bands[at(w, y, x)] >= bands[at(w, y + 1, x)] { bands[at(w, y, x)] } else { bands[at(w, y + 1, x)] })
            % CONTOUR_EVERY == 0 ==> inked(bands, w, h, thick, x, y) == LOCAL_INK,
{
    assert(sample(bands, w, h, x, y) == bands[at(w, y, x)]);
    if bands[at(w, y, x)] != 0 {
        let left_open = x == 0 || bands[at(w, y, x - 1)] == 0;
        let right_open = x == w - 1 || bands[at(w, y, x + 1)] == 0;
        let up_open = y == 0 || bands[at(w, y - 1, x)] == 0;
        let down_open = y == h - 1 || bands[at(w, y + 1, x)] == 0;
        if left_open || right_open || up_open || down_open {
            assert(sky_at_reach(bands, w, h, x, y, 1));
            assert(on_silhouette(bands, w, h, x, y, thick));
        }
        if x + 1 < w {
            assert(sample(bands, w, h, x + 1, y) == bands[at(w, y, x + 1)]);
        }
        if y + 1 < h {
            assert(sample(bands, w, h, x, y + 1) == bands[at(w, y + 1, x)]);
        }
    }
}

/// Counting the cloud in a column: never more texels than the rows counted, all of them where
/// every texel carries cloud, none where the column is open sky, and a run of rows counts as
/// its two halves together.
pub proof fn the_underside_is_counted_texel_by_texel(bands: Seq<u8>, w: int, x: int, from: int, mid: int, to: int)
    requires
        from <= mid <= to,
    ensures
        covered(bands, w, x, from, to) <= to - from,
        covered(bands, w, x, from, to) == covered(bands, w, x, from, mid) + covered(bands, w, x, mid, to),
        (forall|r: int| from <= r < to ==> #[trigger] bands[at(w, r, x)] != 0) ==> covered(bands, w, x, from, to)
            == to - from,
        (forall|r: int| from <= r < to ==> #[trigger] bands[at(w, r, x)] == 0) ==> covered(bands, w, x, from, to) == 0,
    decreases to - from,
{
    if to > mid {
        the_underside_is_counted_texel_by_texel(bands, w, x, from, mid, to - 1);
    } else if to > from {
        the_underside_is_counted_texel_by_texel(bands, w, x, from, to - 1, to - 1);
    }
}

/// How many texels of column `x`, rows `from..to`, carry cloud.
pub open spec fn covered(bands: Seq<u8>, w: int, x: int, from: int, to: int) -> nat
    decreases to - from,
{
    if to <= from {
        0
    } else {
        covered(bands, w, x, from, to - 1) + if bands[at(w, to - 1, x)] != 0 {
            1nat
        } else {
            0nat
        }
    }
}

/// Which part of a cloud is being built.
#[derive(Clone, Copy, PartialEq, Eq, Debug, Structural)]
pub enum Phase {
    /// Adding the puffs up into a density field.
    Stamp,
    /// Turning that density into shaded bands.
    Shade,
    /// Drawing the line around the bands.
    Ink,
    /// Measuring the underside.
    Hem,
    /// Nothing left to do.
    Done,
}

/// One piece of the work of building a cloud, in the order the forge hands them out.
#[derive(Clone, Copy, PartialEq, Eq, Debug, Structural)]
pub enum Job {
    /// Lay this puff into the density field.
    Stamp(u32),
    /// Shade this row of the density into bands, and hand them back with [`Forge::set_bands`].
    Shade(u32),
    /// This row has been inked.
    Ink(u32),
    /// Measure the underside under this column, with [`Forge::hem_coverage`] and
    /// [`Forge::set_hem`].
    Hem(u32),
    /// The cloud is finished.
    Finished,
}

/// The `k`th job in building a cloud of `puffs` puffs on a `w` by `h` bitmap: every puff, then
/// every row shaded, then every row inked, then every column measured.
pub open spec fn job_at(puffs: int, w: int, h: int, k: int) -> Job {
    if k < puffs {
        Job::Stamp(k as u32)
    } else if k < puffs + h {
        Job::Shade((k - puffs) as u32)
    } else if k < puffs + 2 * h {
        Job::Ink((k - puffs - h) as u32)
    } else if k < puffs + 2 * h + w {
        Job::Hem((k - puffs - 2 * h) as u32)
    } else {
        Job::Finished
    }
}

/// One cloud under construction: everything about it that is counted rather than measured.
///
/// Building a cloud costs tens of millions of texel writes, so it is done on an allowance: the
/// forge hands out one [`Job`] at a time with [`Forge::advance`], and whoever holds the density
/// field does the puffs and the shading, while the forge inks the bands and counts the
/// underside itself. The new cloud is grown in buffers of its own and only taken when finished.
pub struct Forge {
    /// Which drifter this cloud is for.
    pub target: usize,
    /// Which tier it is being built at.
    pub tier: usize,
    /// Texels across.
    pub width: u32,
    /// Texels down.
    pub height: u32,
    /// How many puffs it is grown from.
    pub puffs: u32,
    /// How thick its silhouette line is, in texels.
    pub thick: u32,
    /// The shaded bands, `0` for open sky and `1..=CLOUD_BANDS` for cloud.
    pub bands: Vec<u8>,
    /// The inked bitmap.
    pub cells: Vec<u8>,
    /// How much of the base band each column carries.
    pub hem: Vec<u8>,
    /// Where in the current phase the work has got to.
    pub cursor: u32,
    /// Which part is being built.
    pub phase: Phase,
}

impl Forge {
    /// Buffers of the size it claims, bands and ink in range, and a cursor inside its phase.
    pub open spec fn wf(&self) -> bool {
        &&& self.width >= 1
        &&& self.height >= 1
        &&& self.puffs >= 1
        &&& self.thick >= 1
        &&& self.bands@.len() == (self.width as int) * (self.height as int)
        &&& self.cells@.len() == (self.width as int) * (self.height as int)
        &&& self.hem@.len() == self.width
        &&& forall|i: int| 0 <= i < self.bands@.len() ==> #[trigger] self.bands@[i] <= CLOUD_BANDS
        &&& forall|i: int| 0 <= i < self.cells@.len() ==> #[trigger] self.cells@[i] <= LOCAL_INK
        &&& match self.phase {
            Phase::Stamp => self.cursor < self.puffs,
            Phase::Shade => self.cursor < self.height,
            Phase::Ink => self.cursor < self.height,
            Phase::Hem => self.cursor < self.width,
            Phase::Done => self.cursor == 0,
        }
    }

    /// How many jobs building this cloud takes altogether.
    pub open spec fn total(&self) -> int {
        self.puffs + 2 * self.height + self.width
    }

    /// How many jobs have been handed out so far.
    pub open spec fn units(&self) -> int {
        match self.phase {
            Phase::Stamp => self.cursor as int,
            Phase::Shade => self.puffs + self.cursor,
            Phase::Ink => self.puffs + self.height + self.cursor,
            Phase::Hem => self.puffs + 2 * self.height + self.cursor,
            Phase::Done => self.total(),
        }
    }

    /// How many rows of the bitmap have been inked: none before inking starts, the rows behind
    /// the cursor while it runs, and all of them after.
    pub open spec fn inked_rows(&self) -> int {
        match self.phase {
            Phase::Stamp | Phase::Shade => 0,
            Phase::Ink => self.cursor as int,
            Phase::Hem | Phase::Done => self.height as int,
        }
    }

    /// Every row inked so far is the line drawn around the bands as they stand.
    pub open spec fn inked_so_far(&self) -> bool {
        forall|r: int, c: int|
            0 <= r < self.inked_rows() && 0 <= c < self.width ==> (#[trigger] self.cells@[at(self.width as int, r, c)])
                == inked(self.bands@, self.width as int, self.height as int, self.thick as int, c, r)
    }

    /// The same cloud: only the inked bitmap and the progress through it may differ.
    pub open spec fn same_cloud(&self, other: Forge) -> bool {
        &&& self.target == other.target
        &&& self.tier == other.tier
        &&& self.width == other.width
        &&& self.height == other.height
        &&& self.puffs == other.puffs
        &&& self.thick == other.thick
        &&& self.bands@ == other.bands@
        &&& self.hem@ == other.hem@
    }

    /// Clear the buffers a new cloud will be grown in. At least eight texels each way, grown from
    /// `puffs` puffs and outlined `thick` texels deep.
    pub fn start(target: usize, tier: usize, size: (u32, u32), puffs: u32, thick: u32) -> (forge: Forge)
        requires
            puffs >= 1,
            thick >= 1,
            (if size.0 > 8 { size.0 as int } else { 8 }) * (if size.1 > 8 { size.1 as int } else { 8 }) <= usize::MAX,
        ensures
            forge.wf(),
            forge.target == target,
            forge.tier == tier,
            forge.width == if size.0 > 8 { size.0 } else { 8 },
            forge.height == if size.1 > 8 { size.1 } else { 8 },
            forge.puffs == puffs,
            forge.thick == thick,
            forge.units() == 0,
            forge.inked_so_far(),
            forall|i: int| 0 <= i < forge.bands@.len() ==> #[trigger] forge.bands@[i] == 0,
            forall|i: int| 0 <= i < forge.cells@.len() ==> #[trigger] forge.cells@[i] == 0,
            forall|i: int| 0 <= i < forge.hem@.len() ==> #[trigger] forge.hem@[i] == 0,
    {
        let width = if size.0 > 8 { size.0 } else { 8 };
        let height = if size.1 > 8 { size.1 } else { 8 };
        let texels = width as usize * height as usize;
        let bands: Vec<u8> = vec![0u8; texels];
        let cells: Vec<u8> = vec![0u8; texels];
        let hem: Vec<u8> = vec![0u8; width as usize];
        Forge { target, tier, width, height, puffs, thick, bands, cells, hem, cursor: 0, phase: Phase::Stamp }
    }

    /// Whether the cloud is finished.
    pub fn done(&self) -> (finished: bool)
        ensures
            finished == (self.phase == Phase::Done),
    {
        matches!(self.phase, Phase::Done)
    }

    /// A forge always finishes: progress never runs past the end, every job it hands out before
    /// the end moves it on by one, and it is finished exactly when every job has been handed
    /// out. So an unfinished forge is finished after at most `total() - units()` more jobs, and
    /// a finished one stays as it is.
    pub proof fn lemma_progress(&self)
        requires
            self.wf(),
        ensures
            0 <= self.units() <= self.total(),
            (self.phase == Phase::Done) <==> self.units() == self.total(),
    {
    }

    /// The band at (`x`, `y`), everything off the bitmap counting as open sky.
    fn sample_band(&self, x: i64, y: i64) -> (band: u8)
        requires
            self.bands@.len() == (self.width as int) * (self.height as int),
        ensures
            band == sample(self.bands@, self.width as int, self.height as int, x as int, y as int),
    {
        if x < 0 || y < 0 || x >= self.width as i64 || y >= self.height as i64 {
            return 0;
        }
        proof {
            lemma_at_inside(self.width as int, self.height as int, y as int, x as int);
            assert(self.bands@.len() == self.bands.len());
        }
        self.bands[y as usize * self.width as usize + x as usize]
    }

    /// Whether open sky lies within `thick` texels of (`x`, `y`) along its row or column.
    fn near_sky(&self, x: i64, y: i64) -> (sky: bool)
        requires
            self.bands@.len() == (self.width as int) * (self.height as int),
            0 <= x < self.width,
            0 <= y < self.height,
        ensures
            sky == on_silhouette(self.bands@, self.width as int, self.height as int, x as int, y as int, self.thick as int),
    {
        let ghost b = self.bands@;
        let ghost w = self.width as int;
        let ghost h = self.height as int;
        let mut reach: i64 = 1;
        while reach <= self.thick as i64
            invariant
                1 <= reach <= self.thick as i64 + 1,
                b == self.bands@,
                w == self.width,
                h == self.height,
                self.bands@.len() == w * h,
                0 <= x < w,
                0 <= y < h,
                forall|r: int| 1 <= r < reach ==> !#[trigger] sky_at_reach(b, w, h, x as int, y as int, r),
            decreases self.thick as i64 + 1 - reach,
        {
            let sky = self.sample_band(x - reach, y) == 0 || self.sample_band(x + reach, y) == 0
                || self.sample_band(x, y - reach) == 0 || self.sample_band(x, y + reach) == 0;
            if sky {
                assert(sky_at_reach(b, w, h, x as int, y as int, reach as int));
                return true;
            }
            reach = reach + 1;
        }
        false
    }

    /// Draw the line along row `y`: around the cloud, and along every drawn contour inside it.
    fn ink_row(&mut self, y: u32)
        requires
            old(self).wf(),
            y < old(self).height,
        ensures
            final(self).wf(),
            final(self).same_cloud(*old(self)),
            final(self).cursor == old(self).cursor,
            final(self).phase == old(self).phase,
            forall|r: int, c: int|
                0 <= r < old(self).height && 0 <= c < old(self).width ==> (#[trigger] final(self).cells@[at(old(self).width as int, r, c)])
                    == if r == y {
                    inked(old(self).bands@, old(self).width as int, old(self).height as int, old(self).thick as int, c, r)
                } else {
                    old(self).cells@[at(old(self).width as int, r, c)]
                },
    {
        let ghost before = self.cells@;
        let ghost b = self.bands@;
        let ghost w = self.width as int;
        let ghost h = self.height as int;
        let ghost t = self.thick as int;
        let width = self.width;
        let mut x: u32 = 0;
        while x < width
            invariant
                0 <= x <= width,
                width == w,
                w == self.width,
                h == self.height,
                t == self.thick,
                y < h,
                b == self.bands@,
                self.wf(),
                self.same_cloud(*old(self)),
                self.cursor == old(self).cursor,
                self.phase == old(self).phase,
                forall|r: int, c: int|
                    0 <= r < h && 0 <= c < w ==> (#[trigger] self.cells@[at(w, r, c)]) == if r == y && c < x {
                        inked(b, w, h, t, c, r)
                    } else {
                        before[at(w, r, c)]
                    },
            decreases width - x,
        {
            proof {
                lemma_at_inside(w, h, y as int, x as int);
                assert(self.cells@.len() == self.cells.len());
            }
            let here = self.sample_band(x as i64, y as i64);
            let value = if here == 0 {
                0
            } else if self.near_sky(x as i64, y as i64) {
                LOCAL_INK
            } else {
                let east = self.sample_band(x as i64 + 1, y as i64);
                let south = self.sample_band(x as i64, y as i64 + 1);
                let high_east = if here >= east { here } else { east };
                let high_south = if here >= south { here } else { south };
                if (east != 0 && east != here && high_east % CONTOUR_EVERY == 0) || (south != 0
                    && south != here && high_south % CONTOUR_EVERY == 0) {
                    LOCAL_INK
                } else {
                    here
                }
            };
            assert(value == inked(b, w, h, t, x as int, y as int));
            let i = y as usize * width as usize + x as usize;
            self.cells.set(i, value);
            proof {
                assert forall|r: int, c: int| 0 <= r < h && 0 <= c < w implies (#[trigger] self.cells@[at(w, r, c)])
                    == if r == y && c < x + 1 {
                    inked(b, w, h, t, c, r)
                } else {
                    before[at(w, r, c)]
                } by {
                    lemma_at_inside(w, h, r, c);
                    if r != y || c != x {
                        lemma_at_distinct(w, r, c, y as int, x as int);
                    }
                }
            }
            x = x + 1;
        }
    }

    /// Hand out the next job and move past it. Inking is done here and now; the other jobs are
    /// the caller's to do before it asks for the next one.
    pub fn advance(&mut self) -> (job: Job)
        requires
            old(self).wf(),
        ensures
            final(self).wf(),
            final(self).same_cloud(*old(self)),
            job == job_at(old(self).puffs as int, old(self).width as int, old(self).height as int, old(self).units()),
            final(self).units() == if old(self).phase == Phase::Done {
                old(self).units()
            } else {
                old(self).units() + 1
            },
            old(self).phase == Phase::Done ==> job == Job::Finished && final(self).phase == Phase::Done
                && final(self).cursor == old(self).cursor,
            old(self).phase != Phase::Done ==> job != Job::Finished && old(self).units() < old(self).total(),
            old(self).inked_so_far() ==> final(self).inked_so_far(),
            match job {
                Job::Ink(y) => forall|r: int, c: int|
                    0 <= r < old(self).height && 0 <= c < old(self).width ==> (#[trigger] final(self).cells@[at(old(self).width as int, r, c)])
                        == if r == y {
                        inked(old(self).bands@, old(self).width as int, old(self).height as int, old(self).thick as int, c, r)
                    } else {
                        old(self).cells@[at(old(self).width as int, r, c)]
                    },
                _ => final(self).cells@ == old(self).cells@,
            },
    {
        match self.phase {
            Phase::Stamp => {
                let i = self.cursor;
                self.cursor = self.cursor + 1;
                if self.cursor == self.puffs {
                    self.phase = Phase::Shade;
                    self.cursor = 0;
                }
                Job::Stamp(i)
            },
            Phase::Shade => {
                let y = self.cursor;
                self.cursor = self.cursor + 1;
                if self.cursor == self.height {
                    self.phase = Phase::Ink;
                    self.cursor = 0;
                }
                Job::Shade(y)
            },
            Phase::Ink => {
                let y = self.cursor;
                let ghost before = *self;
                self.ink_row(y);
                proof {
                    let w = before.width as int;
                    if before.inked_so_far() {
                        assert forall|r: int, c: int| 0 <= r < y + 1 && 0 <= c < w implies (#[trigger] self.cells@[at(w, r, c)])
                            == inked(self.bands@, w, self.height as int, self.thick as int, c, r) by {
                            if r < y {
                                assert(before.cells@[at(w, r, c)] == inked(before.bands@, w, before.height as int, before.thick as int, c, r));
                            }
                        }
                    }
                }
                self.cursor = self.cursor + 1;
                if self.cursor == self.height {
                    self.phase = Phase::Hem;
                    self.cursor = 0;
                }
                Job::Ink(y)
            },
            Phase::Hem => {
                let x = self.cursor;
                self.cursor = self.cursor + 1;
                if self.cursor == self.width {
                    self.phase = Phase::Done;
                    self.cursor = 0;
                }
                Job::Hem(x)
            },
            Phase::Done => Job::Finished,
        }
    }

    /// One step of spending an allowance: with `spent` of `budget` texels of work already
    /// done, the next job, or [`Job::Finished`] with nothing changed once the allowance is used
    /// up. Otherwise just as [`advance`](Self::advance); on an unfinished forge, a step inside
    /// the allowance always hands out real work.
    pub fn work_step(&mut self, spent: u64, budget: u64) -> (job: Job)
        requires
            old(self).wf(),
        ensures
            final(self).wf(),
            final(self).same_cloud(*old(self)),
            job == if spent < budget {
                job_at(old(self).puffs as int, old(self).width as int, old(self).height as int, old(self).units())
            } else {
                Job::Finished
            },
            final(self).units() == if spent < budget && old(self).phase != Phase::Done {
                old(self).units() + 1
            } else {
                old(self).units()
            },
            spent < budget && old(self).phase != Phase::Done ==> job != Job::Finished,
            old(self).inked_so_far() ==> final(self).inked_so_far(),
            spent >= budget || old(self).phase == Phase::Done ==> job == Job::Finished
                && final(self).phase == old(self).phase && final(self).cursor == old(self).cursor,
            match job {
                Job::Ink(y) => forall|r: int, c: int|
                    0 <= r < old(self).height && 0 <= c < old(self).width ==> (#[trigger] final(self).cells@[at(old(self).width as int, r, c)])
                        == if r == y {
                        inked(old(self).bands@, old(self).width as int, old(self).height as int, old(self).thick as int, c, r)
                    } else {
                        old(self).cells@[at(old(self).width as int, r, c)]
                    },
                _ => final(self).cells@ == old(self).cells@,
            },
    {
        if spent < budget {
            self.advance()
        } else {
            proof {
                self.lemma_progress();
            }
            Job::Finished
        }
    }

    /// Hand back row `y` of bands, as shaded off the density.
    pub fn set_bands(&mut self, y: u32, row: &Vec<u8>)
        requires
            old(self).wf(),
            y < old(self).height,
            row@.len() == old(self).width,
            forall|i: int| 0 <= i < row@.len() ==> #[trigger] row@[i] <= CLOUD_BANDS,
        ensures
            final(self).wf(),
            final(self).cells@ == old(self).cells@,
            final(self).hem@ == old(self).hem@,
            final(self).width == old(self).width,
            final(self).height == old(self).height,
            final(self).puffs == old(self).puffs,
            final(self).thick == old(self).thick,
            final(self).target == old(self).target,
            final(self).tier == old(self).tier,
            final(self).units() == old(self).units(),
            final(self).inked_rows() == old(self).inked_rows(),
            old(self).inked_rows() == 0 ==> final(self).inked_so_far(),
            forall|r: int, c: int|
                0 <= r < old(self).height && 0 <= c < old(self).width ==> (#[trigger] final(self).bands@[at(old(self).width as int, r, c)])
                    == if r == y {
                    row@[c]
                } else {
                    old(self).bands@[at(old(self).width as int, r, c)]
                },
    {
        let ghost before = self.bands@;
        let ghost w = self.width as int;
        let ghost h = self.height as int;
        let width = self.width;
        let mut x: u32 = 0;
        while x < width
            invariant
                0 <= x <= width,
                width == w,
                w == self.width,
                h == self.height,
                y < h,
                row@.len() == w,
                forall|i: int| 0 <= i < row@.len() ==> #[trigger] row@[i] <= CLOUD_BANDS,
                self.wf(),
                self.cells@ == old(self).cells@,
                self.hem@ == old(self).hem@,
                self.puffs == old(self).puffs,
                self.thick == old(self).thick,
                self.target == old(self).target,
                self.tier == old(self).tier,
                self.cursor == old(self).cursor,
                self.phase == old(self).phase,
                forall|r: int, c: int|
                    0 <= r < h && 0 <= c < w ==> (#[trigger] self.bands@[at(w, r, c)]) == if r == y && c < x {
                        row@[c]
                    } else {
                        before[at(w, r, c)]
                    },
            decreases width - x,
        {
            proof {
                lemma_at_inside(w, h, y as int, x as int);
                assert(self.bands@.len() == self.bands.len());
            }
            let i = y as usize * width as usize + x as usize;
            self.bands.set(i, row[x as usize]);
            proof {
                assert forall|r: int, c: int| 0 <= r < h && 0 <= c < w implies (#[trigger] self.bands@[at(w, r, c)])
                    == if r == y && c < x + 1 {
                    row@[c]
                } else {
                    before[at(w, r, c)]
                } by {
                    lemma_at_inside(w, h, r, c);
                    if r != y || c != x {
                        lemma_at_distinct(w, r, c, y as int, x as int);
                    }
                }
            }
            x = x + 1;
        }
    }

    /// How thick the line is: a cloud texel with open sky, or the edge of the bitmap, anywhere
/// within `thick` texels of it straight across or straight up and down is ink; and one with
/// cloud all round it that far, and no drawn contour to its east or its south, keeps its band.
pub proof fn the_line_is_thick_as_asked(bands: Seq<u8>, w: int, h: int, thick: int, x: int, y: int, d: int)
    requires
        bands.len() == w * h,
        0 <= x < w,
        0 <= y < h,
        1 <= d <= thick,
    ensures
        bands[at(w, y, x)] != 0 && (x - d < 0 || bands[at(w, y, x - d)] == 0) ==> inked(bands, w, h, thick, x, y) == LOCAL_INK,
        bands[at(w, y, x)] != 0 && (x + d >= w || bands[at(w, y, x + d)] == 0) ==> inked(bands, w, h, thick, x, y) == LOCAL_INK,
        bands[at(w, y, x)] != 0 && (y - d < 0 || bands[at(w, y - d, x)] == 0) ==> inked(bands, w, h, thick, x, y) == LOCAL_INK,
        bands[at(w, y, x)] != 0 && (y + d >= h || bands[at(w, y + d, x)] == 0) ==> inked(bands, w, h, thick, x, y) == LOCAL_INK,
        ({
            let here = bands[at(w, y, x)];
            &&& here != 0
            &&& 0 <= x - thick && x + thick < w && 0 <= y - thick && y + thick < h
            &&& forall|e: int| 1 <= e <= thick ==> #[trigger] bands[at(w, y, x - e)] != 0 && bands[at(w, y, x + e)] != 0
                && bands[at(w, y - e, x)] != 0 && bands[at(w, y + e, x)] != 0
            &&& !(bands[at(w, y, x + 1)] != here && (if here >= bands[at(w, y, x + 1)] { here } else {
                bands[at(w, y, x + 1)] }) % CONTOUR_EVERY == 0)
            &&& !(bands[at(w, y + 1, x)] != here && (if here >= bands[at(w, y + 1, x)] { here } else {
                bands[at(w, y + 1, x)] }) % CONTOUR_EVERY == 0)
        }) ==> inked(bands, w, h, thick, x, y) == bands[at(w, y, x)],
{
    assert(sample(bands, w, h, x, y) == bands[at(w, y, x)]);
    if bands[at(w, y, x)] != 0 {
        if (x - d < 0 || bands[at(w, y, x - d)] == 0) || (x + d >= w || bands[at(w, y, x + d)] == 0) || (y - d
            < 0 || bands[at(w, y - d, x)] == 0) || (y + d >= h || bands[at(w, y + d, x)] == 0) {
            assert(sky_at_reach(bands, w, h, x, y, d));
            assert(on_silhouette(bands, w, h, x, y, thick));
        }
    }
    let here = bands[at(w, y, x)];
    if here != 0 && (0 <= x - thick && x + thick < w && 0 <= y - thick && y + thick < h) && (
    forall|e: int|
        1 <= e <= thick ==> #[trigger] bands[at(w, y, x - e)] != 0 && bands[at(w, y, x + e)] != 0 && bands[at(
            w,
            y - e,
            x,
        )] != 0 && bands[at(w, y + e, x)] != 0) {
        assert forall|e: int| 1 <= e <= thick implies !#[trigger] sky_at_reach(bands, w, h, x, y, e) by {
            assert(bands[at(w, y, x - e)] != 0);
        }
        assert(!on_silhouette(bands, w, h, x, y, thick));
        assert(sample(bands, w, h, x + 1, y) == bands[at(w, y, x + 1)]);
        assert(sample(bands, w, h, x, y + 1) == bands[at(w, y + 1, x)]);
    }
}

/// How many texels of column `x`, rows `from..to`, carry cloud: what its shadow is drawn from.
    pub fn hem_coverage(&self, x: u32, from: u32, to: u32) -> (count: u32)
        requires
            self.wf(),
            x < self.width,
            from <= to <= self.height,
        ensures
            count == covered(self.bands@, self.width as int, x as int, from as int, to as int),
    {
        let ghost w = self.width as int;
        let ghost h = self.height as int;
        let mut count: u32 = 0;
        let mut y = from;
        while y < to
            invariant
                from <= y <= to <= h,
                w == self.width,
                h == self.height,
                x < w,
                self.wf(),
                count == covered(self.bands@, w, x as int, from as int, y as int),
                count <= y - from,
            decreases to - y,
        {
            proof {
                lemma_at_inside(w, h, y as int, x as int);
                assert(self.bands@.len() == self.bands.len());
            }
            if self.bands[y as usize * self.width as usize + x as usize] != 0 {
                count = count + 1;
            }
            y = y + 1;
        }
        count
    }

    /// Record how much of the base band column `x` carries.
    pub fn set_hem(&mut self, x: u32, share: u8)
        requires
            old(self).wf(),
            x < old(self).width,
        ensures
            final(self).wf(),
            final(self).hem@ == old(self).hem@.update(x as int, share),
            old(self).inked_so_far() ==> final(self).inked_so_far(),
            final(self).bands@ == old(self).bands@,
            final(self).cells@ == old(self).cells@,
            final(self).width == old(self).width,
            final(self).height == old(self).height,
            final(self).puffs == old(self).puffs,
            final(self).thick == old(self).thick,
            final(self).target == old(self).target,
            final(self).tier == old(self).tier,
            final(self).units() == old(self).units(),
    {
        self.hem.set(x as usize, share);
    }

    /// The finished cloud, hung from row `base`. Only once [`done`](Self::done) says so.
    pub fn take(self, base: u32) -> (anvil: Anvil)
        requires
            self.wf(),
            self.phase == Phase::Done,
        ensures
            anvil.wf(),
            anvil.width == self.width,
            anvil.height == self.height,
            anvil.cells@ == self.cells@,
            anvil.hem@ == self.hem@,
            anvil.base == base,
            self.inked_so_far() ==> forall|r: int, c: int|
                0 <= r < self.height && 0 <= c < self.width ==> (#[trigger] anvil.cells@[at(self.width as int, r, c)])
                    == inked(self.bands@, self.width as int, self.height as int, self.thick as int, c, r),
    {
        Anvil { width: self.width, height: self.height, cells: self.cells, base, hem: self.hem }
    }
}

/// Building a cloud hands out every puff, then every row to shade, then every row to ink, then
/// every column to measure, each exactly once, and nothing after that: so no row is inked before
/// every row has been shaded, and nothing is measured before every row is inked.
pub proof fn every_job_is_handed_out_once(puffs: int, w: int, h: int)
    requires
        1 <= puffs <= u32::MAX,
        1 <= w <= u32::MAX,
        1 <= h <= u32::MAX,
    ensures
        forall|i: int| 0 <= i < puffs ==> #[trigger] job_at(puffs, w, h, i) == Job::Stamp(i as u32),
        forall|y: int| 0 <= y < h ==> #[trigger] job_at(puffs, w, h, puffs + y) == Job::Shade(y as u32),
        forall|y: int| 0 <= y < h ==> #[trigger] job_at(puffs, w, h, puffs + h + y) == Job::Ink(y as u32),
        forall|x: int| 0 <= x < w ==> #[trigger] job_at(puffs, w, h, puffs + 2 * h + x) == Job::Hem(x as u32),
        forall|k: int, j: int|
            0 <= k < j < puffs + 2 * h + w ==> #[trigger] job_at(puffs, w, h, k) != #[trigger] job_at(puffs, w, h, j),
        forall|k: int| k >= puffs + 2 * h + w ==> #[trigger] job_at(puffs, w, h, k) == Job::Finished,
{
}


// ---------------------------------------------------------------------------------------
// the weather
// ---------------------------------------------------------------------------------------

/// How many texels a list of clouds covers between them.
pub open spec fn texel_total(shapes: Seq<Anvil>) -> int
    decreases shapes.len(),
{
    if shapes.len() == 0 {
        0
    } else {
        texel_total(shapes.drop_last()) + (shapes.last().width as int) * (shapes.last().height as int)
    }
}

/// Whether nothing occurs twice in a queue.
pub open spec fn no_repeats(queue: Seq<usize>) -> bool {
    forall|i: int, j: int| 0 <= i < j < queue.len() ==> queue[i] != queue[j]
}

/// A queue with `index` at the back, unless it is in it already.
pub open spec fn enqueue(queue: Seq<usize>, index: usize) -> Seq<usize> {
    if queue.contains(index) {
        queue
    } else {
        queue.push(index)
    }
}

/// A queue with each of `0..count` enqueued in turn.
pub open spec fn enqueue_all(queue: Seq<usize>, count: nat) -> Seq<usize>
    decreases count,
{
    if count == 0 {
        queue
    } else {
        enqueue(enqueue_all(queue, (count - 1) as nat), (count - 1) as usize)
    }
}

/// The weather's books: what size each tier's clouds are, which shape each drifter wears and
/// which tier it flies at, and the queue of drifters whose shape is to be regrown. Where the
/// drifters are and how fast they go is measured, not counted, and kept beside this.
pub struct Sky {
    /// What the desert is drawn from. Kept so a resize redraws the same place.
    pub seed: u64,
    /// What each tier's bitmap comes to under the window it was last sized for.
    pub sizes: Vec<(u32, u32)>,
    /// One cloud per drifter, in the same order.
    pub shapes: Vec<Anvil>,
    /// Which tier each drifter flies at, far ones first.
    pub tiers: Vec<usize>,
    /// Drifters whose shape is to be regrown, in the order they asked.
    pub waiting: VecDeque<usize>,
    /// Whether the drifters have been spread across a window yet.
    pub placed: bool,
    /// How many clouds have been grown since the piece opened, for the readout.
    pub grown: u64,
}

impl Sky {
    /// An empty sky, before any window has said how big it is.
    pub fn new(seed: u64) -> (sky: Sky)
        ensures
            sky.wf(),
            sky.seed == seed,
            sky.sizes@.len() == 0,
            sky.shapes@.len() == 0,
            sky.waiting@.len() == 0,
            !sky.placed,
            sky.grown == 0,
    {
        Sky {
            seed,
            sizes: Vec::new(),
            shapes: Vec::new(),
            tiers: Vec::new(),
            waiting: VecDeque::new(),
            placed: false,
            grown: 0,
        }
    }

    /// One shape and one tier per drifter, every tier sized, and a queue of real drifters in
    /// which none waits twice.
    pub open spec fn wf(&self) -> bool {
        &&& self.shapes@.len() == self.tiers@.len()
        &&& forall|i: int| 0 <= i < self.tiers@.len() ==> #[trigger] self.tiers@[i] < self.sizes@.len()
        &&& forall|k: int| 0 <= k < self.waiting@.len() ==> #[trigger] self.waiting@[k] < self.tiers@.len()
        &&& no_repeats(self.waiting@)
    }

    /// How many texels of cloud are in the air. The piece's own boast, in the readout.
    pub fn texels(&self) -> (total: u64)
        requires
            texel_total(self.shapes@) <= u64::MAX,
        ensures
            total == texel_total(self.shapes@),
    {
        let mut total: u64 = 0;
        let mut i: usize = 0;
        while i < self.shapes.len()
            invariant
                i <= self.shapes@.len(),
                texel_total(self.shapes@) <= u64::MAX,
                total == texel_total(self.shapes@.subrange(0, i as int)),
            decreases self.shapes@.len() - i,
        {
            let ghost prefix = self.shapes@.subrange(0, i as int + 1);
            assert(prefix.drop_last() =~= self.shapes@.subrange(0, i as int));
            proof {
                lemma_texel_prefix(self.shapes@, i as int + 1);
                grid::lemma_area_fits(self.shapes@[i as int].width, self.shapes@[i as int].height);
            }
            total = total + self.shapes[i].width as u64 * self.shapes[i].height as u64;
            i = i + 1;
        }
        assert(self.shapes@.subrange(0, i as int) =~= self.shapes@);
        total
    }

    /// Put drifter `index` in the queue to be regrown, unless it is waiting already.
    pub fn wait_for(&mut self, index: usize)
        requires
            old(self).wf(),
            index < old(self).tiers@.len(),
        ensures
            final(self).wf(),
            final(self).waiting@ == enqueue(old(self).waiting@, index),
            final(self).same_books(*old(self)),
            final(self).sizes@ == old(self).sizes@,
    {
        let mut k: usize = 0;
        let n = self.waiting.len();
        while k < n
            invariant
                n == self.waiting@.len(),
                k <= n,
                forall|j: int| 0 <= j < k ==> self.waiting@[j] != index,
                self.wf(),
                index < self.tiers@.len(),
                self.waiting@ == old(self).waiting@,
                self.sizes@ == old(self).sizes@,
                self.same_books(*old(self)),
            decreases n - k,
        {
            if self.waiting[k] == index {
                assert(self.waiting@.contains(index)) by {
                    assert(self.waiting@[k as int] == index);
                }
                return;
            }
            k = k + 1;
        }
        assert(!self.waiting@.contains(index));
        proof {
            the_queue_never_repeats(self.waiting@, index);
        }
        self.waiting.push_back(index);
    }

    /// The window has changed the sky's size: when that changes what size a tier's clouds come
    /// to, take the new sizes and queue every drifter to be regrown. Whether it did.
    pub fn regrow(&mut self, wanted: Vec<(u32, u32)>) -> (changed: bool)
        requires
            old(self).wf(),
            wanted@.len() == old(self).sizes@.len(),
        ensures
            final(self).wf(),
            final(self).same_books(*old(self)),
            changed == (wanted@ != old(self).sizes@),
            changed ==> final(self).sizes@ == wanted@ && final(self).waiting@ == enqueue_all(
                old(self).waiting@,
                old(self).tiers@.len(),
            ),
            !changed ==> final(self).sizes@ == old(self).sizes@ && final(self).waiting@ == old(self).waiting@,
            changed ==> forall|i: int| 0 <= i < old(self).tiers@.len() ==> #[trigger] final(self).waiting@.contains(i as usize),
    {
        let mut same = true;
        let mut j: usize = 0;
        while j < wanted.len()
            invariant
                wanted@.len() == self.sizes@.len(),
                j <= wanted@.len(),
                same == forall|i: int| 0 <= i < j ==> wanted@[i] == self.sizes@[i],
            decreases wanted@.len() - j,
        {
            if wanted[j].0 != self.sizes[j].0 || wanted[j].1 != self.sizes[j].1 {
                same = false;
            }
            j = j + 1;
        }
        if same {
            assert(wanted@ =~= self.sizes@);
            return false;
        }
        assert(wanted@ != self.sizes@);
        self.sizes = wanted;
        let n = self.tiers.len();
        let mut index: usize = 0;
        while index < n
            invariant
                n == self.tiers@.len(),
                index <= n,
                self.wf(),
                self.same_books(*old(self)),
                self.sizes@ == wanted@,
                self.waiting@ == enqueue_all(old(self).waiting@, index as nat),
                forall|i: int| 0 <= i < index ==> #[trigger] self.waiting@.contains(i as usize),
            decreases n - index,
        {
            self.wait_for(index);
            proof {
                assert forall|i: int| 0 <= i < index + 1 implies #[trigger] self.waiting@.contains(i as usize) by {
                    if i < index {
                        let q = enqueue_all(old(self).waiting@, index as nat);
                        assert(q.contains(i as usize));
                        let k = choose|k: int| 0 <= k < q.len() && q[k] == i as usize;
                        if !q.contains(index) {
                            assert(self.waiting@[k] == i as usize);
                        }
                    } else {
                        let q = enqueue_all(old(self).waiting@, index as nat);
                        if !q.contains(index) {
                            assert(self.waiting@[q.len() as int] == index);
                        }
                    }
                }
            }
            index = index + 1;
        }
        true
    }

    /// Hang a newly grown cloud in the sky, for a new drifter flying at `tier`.
    pub fn hang(&mut self, tier: usize, anvil: Anvil)
        requires
            old(self).wf(),
            tier < old(self).sizes@.len(),
            old(self).grown < u64::MAX,
        ensures
            final(self).wf(),
            final(self).shapes@ == old(self).shapes@.push(anvil),
            final(self).tiers@ == old(self).tiers@.push(tier),
            final(self).grown == old(self).grown + 1,
            final(self).sizes@ == old(self).sizes@,
            final(self).waiting@ == old(self).waiting@,
            final(self).seed == old(self).seed,
            final(self).placed == old(self).placed,
    {
        self.shapes.push(anvil);
        self.tiers.push(tier);
        self.grown = self.grown + 1;
    }

    /// The next drifter to regrow, taken off the front of the queue, with the tier and the size it
    /// is to be grown at. `None` when nothing is waiting.
    pub fn next_forge(&mut self) -> (next: Option<(usize, usize, (u32, u32))>)
        requires
            old(self).wf(),
        ensures
            final(self).wf(),
            final(self).same_books(*old(self)),
            final(self).sizes@ == old(self).sizes@,
            old(self).waiting@.len() == 0 ==> next is None && final(self).waiting@ == old(self).waiting@,
            old(self).waiting@.len() > 0 ==> {
                let target = old(self).waiting@[0];
                let tier = old(self).tiers@[target as int];
                &&& next == Some((target, tier, old(self).sizes@[tier as int]))
                &&& final(self).waiting@ == old(self).waiting@.drop_first()
            },
    {
        match self.waiting.pop_front() {
            Some(target) => {
                let tier = self.tiers[target];
                let size = self.sizes[tier];
                assert(self.waiting@ =~= old(self).waiting@.drop_first());
                Some((target, tier, size))
            },
            None => None,
        }
    }

    /// A regrown cloud is finished: it replaces drifter `target`'s shape.
    pub fn finish(&mut self, target: usize, anvil: Anvil)
        requires
            old(self).wf(),
            target < old(self).shapes@.len(),
            old(self).grown < u64::MAX,
        ensures
            final(self).wf(),
            final(self).shapes@ == old(self).shapes@.update(target as int, anvil),
            final(self).grown == old(self).grown + 1,
            final(self).tiers@ == old(self).tiers@,
            final(self).sizes@ == old(self).sizes@,
            final(self).waiting@ == old(self).waiting@,
            final(self).seed == old(self).seed,
            final(self).placed == old(self).placed,
    {
        self.shapes.set(target, anvil);
        self.grown = self.grown + 1;
    }

    /// The same drifters wearing the same shapes.
    pub open spec fn same_books(&self, other: Sky) -> bool {
        &&& self.seed == other.seed
        &&& self.shapes@ == other.shapes@
        &&& self.tiers@ == other.tiers@
        &&& self.placed == other.placed
        &&& self.grown == other.grown
    }
}

/// The texels of a first stretch of clouds never come to more than those of all of them.
pub proof fn lemma_texel_prefix(shapes: Seq<Anvil>, k: int)
    requires
        0 <= k <= shapes.len(),
    ensures
        0 <= texel_total(shapes.subrange(0, k)) <= texel_total(shapes),
    decreases shapes.len(),
{
    if shapes.len() > 0 {
        if k == shapes.len() {
            assert(shapes.subrange(0, k) =~= shapes);
            lemma_texel_prefix(shapes.drop_last(), k - 1);
            assert(shapes.drop_last().subrange(0, k - 1) =~= shapes.drop_last());
        } else {
            lemma_texel_prefix(shapes.drop_last(), k);
            assert(shapes.drop_last().subrange(0, k) =~= shapes.subrange(0, k));
        }
        grid::lemma_area_fits(shapes.last().width, shapes.last().height);
    }
}

/// Enqueueing keeps a queue free of repeats, whatever is enqueued.
pub proof fn the_queue_never_repeats(queue: Seq<usize>, index: usize)
    requires
        no_repeats(queue),
    ensures
        no_repeats(enqueue(queue, index)),
        enqueue(queue, index).contains(index),
        forall|i: usize| queue.contains(i) ==> #[trigger] enqueue(queue, index).contains(i),
        enqueue(queue, index).len() <= queue.len() + 1,
        enqueue(queue, index).subrange(0, queue.len() as int) == queue,
        queue.contains(index) ==> enqueue(queue, index) == queue,
{
    let q = enqueue(queue, index);
    if !queue.contains(index) {
        assert(q[queue.len() as int] == index);
        assert forall|i: usize| queue.contains(i) implies #[trigger] q.contains(i) by {
            let k = choose|k: int| 0 <= k < queue.len() && queue[k] == i;
            assert(q[k] == i);
        }
    }
}

// ---------------------------------------------------------------------------------------
// the command channel
// ---------------------------------------------------------------------------------------

/// Encode a window size for [`RESIZE_COMMAND`]: whole pixels, so it round-trips exactly.
pub fn window_payload(width: u32, height: u32) -> (text: String)
    ensures
        text@ == window_text(width, height),
{
    write_window(width, height)
}

/// Decode a [`window_payload`]. `None` for anything malformed or degenerate.
pub fn parse_window(payload: &str) -> (size: Option<(u32, u32)>)
    ensures
        size == window_from_text(payload@),
{
    parse_window_size(payload)
}

// ---------------------------------------------------------------------------------------
// the readout
// ---------------------------------------------------------------------------------------

/// The three digits of `m`, zeros and all.
pub open spec fn three_digits(m: nat) -> Seq<char> {
    seq![digit_char((m / 100) as int), digit_char(((m / 10) % 10) as int), digit_char((m % 10) as int)]
}

/// A count the way the readout shows it: in decimal, with a comma between each group of three
/// digits from the right.
pub open spec fn grouped_text(n: nat) -> Seq<char>
    decreases n,
{
    if n < 1000 {
        decimal(n)
    } else {
        grouped_text(n / 1000) + seq![','] + three_digits(n % 1000)
    }
}

/// What is left of a text once its commas are taken out.
pub open spec fn without_commas(s: Seq<char>) -> Seq<char> {
    s.filter(|c: char| c != ',')
}

/// A run with no comma in it is left as it is.
proof fn lemma_no_commas(s: Seq<char>)
    requires
        forall|i: int| 0 <= i < s.len() ==> #[trigger] s[i] != ',',
    ensures
        without_commas(s) == s,
    decreases s.len(),
{
    reveal_with_fuel(Seq::filter, 1);
    if s.len() > 0 {
        lemma_no_commas(s.drop_last());
        assert(without_commas(s) =~= without_commas(s.drop_last()).push(s.last()));
    } else {
        assert(without_commas(s) =~= s);
    }
}

/// A decimal is written in digits only.
proof fn lemma_decimal_has_no_commas(n: nat)
    ensures
        forall|i: int| 0 <= i < decimal(n).len() ==> #[trigger] decimal(n)[i] != ',',
{
    lemma_decimal_digits(n);
    assert forall|i: int| 0 <= i < decimal(n).len() implies #[trigger] decimal(n)[i] != ',' by {
        assert(is_digit(decimal(n)[i]));
    }
}

/// Past a thousand, a decimal is the decimal of its thousands followed by its last three
/// digits, zeros and all.
proof fn lemma_decimal_thousands(n: nat)
    requires
        n >= 1000,
    ensures
        decimal(n) == decimal(n / 1000) + three_digits(n % 1000),
{
    let q = n / 1000;
    let r = n % 1000;
    assert(n == 1000 * q + r && r < 1000);
    assert(n / 10 == 100 * q + r / 10 && n % 10 == r % 10) by (nonlinear_arith)
        requires
            n == 1000 * q + r,
            0 <= r < 1000,
            q >= 1,
    ;
    assert(n / 100 == 10 * q + r / 100 && (n / 10) % 10 == (r / 10) % 10) by (nonlinear_arith)
        requires
            n == 1000 * q + r,
            n / 10 == 100 * q + r / 10,
            0 <= r < 1000,
            q >= 1,
    ;
    assert(n / 1000 == q && (n / 100) % 10 == r / 100) by (nonlinear_arith)
        requires
            n == 1000 * q + r,
            n / 100 == 10 * q + r / 100,
            0 <= r < 1000,
            q >= 1,
    ;
    assert(n / 10 / 10 == n / 100 && n / 100 / 10 == n / 1000) by (nonlinear_arith)
        requires
            n >= 0,
    ;
    assert(decimal(n) =~= decimal(n / 10).push(digit_char((n % 10) as int)));
    assert(decimal((n / 10) as nat) =~= decimal((n / 100) as nat).push(digit_char(((n / 10) % 10) as int)));
    assert(decimal((n / 100) as nat) =~= decimal((n / 1000) as nat).push(digit_char(((n / 100) % 10) as int)));
    assert(decimal(n) =~= decimal(n / 1000) + three_digits(n % 1000));
}

/// The separators only separate: take the commas out of a grouped count and what is left is the
/// count in plain decimal.
pub proof fn the_commas_only_separate(n: nat)
    ensures
        without_commas(grouped_text(n)) == decimal(n),
    decreases n,
{
    if n < 1000 {
        lemma_decimal_has_no_commas(n);
        lemma_no_commas(decimal(n));
    } else {
        the_commas_only_separate(n / 1000);
        let head = grouped_text(n / 1000);
        let tail = three_digits(n % 1000);
        lemma_digit_char((n % 1000 / 100) as int);
        lemma_digit_char((n % 1000 / 10 % 10) as int);
        lemma_digit_char((n % 1000 % 10) as int);
        assert(forall|i: int| 0 <= i < tail.len() ==> #[trigger] tail[i] != ',') by {
            assert forall|i: int| 0 <= i < tail.len() implies #[trigger] tail[i] != ',' by {
                assert(is_digit(tail[i]));
            }
        }
        lemma_no_commas(tail);
        assert(without_commas(seq![',']) =~= Seq::<char>::empty()) by {
            reveal_with_fuel(Seq::filter, 2);
        }
        Seq::filter_distributes_over_add(head + seq![','], tail, |c: char| c != ',');
        Seq::filter_distributes_over_add(head, seq![','], |c: char| c != ',');
        lemma_decimal_thousands(n);
        assert(without_commas(grouped_text(n)) =~= decimal(n / 1000) + tail);
    }
}

/// Append `n` with thousands separators to `out`.
fn write_grouped(out: &mut String, n: u64)
    ensures
        final(out)@ == old(out)@ + grouped_text(n as nat),
    decreases n,
{
    if n < 1000 {
        write_decimal(out, n);
        return;
    }
    write_grouped(out, n / 1000);
    proof {
        reveal_strlit(",");
    }
    out.append(",");
    let m = n % 1000;
    let ghost before = out@;
    write_decimal(out, m / 100);
    write_decimal(out, (m / 10) % 10);
    write_decimal(out, m % 10);
    assert(out@ =~= before + three_digits(m as nat));
    assert(out@ =~= old(out)@ + grouped_text(n as nat));
}

/// A count with a comma between each group of three digits: `1234567` reads `1,234,567`.
pub fn grouped(value: u64) -> (text: String)
    ensures
        text@ == grouped_text(value as nat),
{
    let mut out = String::new();
    write_grouped(&mut out, value);
    assert(out@ =~= grouped_text(value as nat));
    out
}

} // verus!
