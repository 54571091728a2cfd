//! Starry: the counting that the painting does.
//!
//! The canvas is some thousands of brushstrokes that drift in a current and find their way
//! back to the picture. Where a stroke goes and what colour it takes is measured; this module
//! keeps what is counted: which layers are airborne and which set of colours each one draws
//! from, how much paint the canvas holds and how a held key adds or lifts it, the stars hung in
//! the sky, and the little generator that scatters the underpainting.

use vstd::prelude::*;
use crate::keys::{fires_at, repeat_key};

verus! {

/// Strokes on a fresh canvas.
pub const START_STROKES: u32 = 7200;
/// The most paint the canvas will carry.
pub const MAX_STROKES: u32 = 26_000;
/// Strokes added or lifted per key repeat.
pub const HOLD_BATCH: u32 = 120;
/// Ticks a key is held before it starts to repeat.
pub const HOLD_DELAY: u32 = 10;
/// Ticks between repeats once it does.
pub const HOLD_PERIOD: u32 = 2;
/// The most stars the sky will hold.
pub const MAX_STARS: usize = 26;
/// How many layers there are, each with a set of colours of its own.
pub const LAYERS: usize = 9;

/// What a stroke is painting. Not a colour: a layer and a tone say what belongs at a point,
/// and the palette decides what that looks like.
#[derive(Clone, Copy, PartialEq, Eq, Debug, Structural)]
pub enum Layer {
    /// The turning sky.
    Sky,
    /// The rings of light around a star or the moon.
    Halo,
    /// The white middle of a star.
    Star,
    /// The moon itself.
    Moon,
    /// The hills behind the village.
    Hill,
    /// The fields in front of it.
    Ground,
    /// The village and its church.
    Village,
    /// A lit window.
    Window,
    /// The cypress.
    Cypress,
}

/// Whether a layer is up in the sky, where the current is free to take it.
pub open spec fn is_airborne(layer: Layer) -> bool {
    layer is Sky || layer is Halo || layer is Star || layer is Moon
}

/// Which set of colours a layer draws from: the layers in the order they are declared.
pub open spec fn slot_of(layer: Layer) -> int {
    match layer {
        Layer::Sky => 0,
        Layer::Halo => 1,
        Layer::Star => 2,
        Layer::Moon => 3,
        Layer::Hill => 4,
        Layer::Ground => 5,
        Layer::Village => 6,
        Layer::Window => 7,
        Layer::Cypress => 8,
    }
}

impl Layer {
    /// Whether this layer is up in the sky, where the current is free to take it.
    pub fn airborne(self) -> (up: bool)
        ensures
            up == is_airborne(self),
    {
        matches!(self, Layer::Sky | Layer::Halo | Layer::Star | Layer::Moon)
    }

    /// Which set of colours this layer draws from.
    pub fn slot(self) -> (index: usize)
        ensures
            index == slot_of(self),
            index < LAYERS,
    {
        match self {
            Layer::Sky => 0,
            Layer::Halo => 1,
            Layer::Star => 2,
            Layer::Moon => 3,
            Layer::Hill => 4,
            Layer::Ground => 5,
            Layer::Village => 6,
            Layer::Window => 7,
            Layer::Cypress => 8,
        }
    }
}

/// Every layer has a set of colours of its own: no two layers share a slot, and every slot is
/// a real one.
pub proof fn every_layer_has_its_own_colours(a: Layer, b: Layer)
    ensures
        0 <= slot_of(a) < LAYERS,
        a != b ==> slot_of(a) != slot_of(b),
{
}

/// How much paint is on the canvas.
#[derive(Clone, Copy, PartialEq, Eq, Debug, Structural)]
pub struct Census(pub u32);

/// How many of `count` new strokes a canvas already holding `census` takes: as many as fit under
/// [`MAX_STROKES`], and no more.
pub open spec fn room_for(census: int, count: int) -> int {
    let room = if census < MAX_STROKES { MAX_STROKES - census } else { 0 };
    if count < room {
        count
    } else {
        room
    }
}

impl Census {
    /// Count in up to `count` new strokes, as many as the canvas has room for. Returns how many
    /// are to be laid.
    pub fn lay(&mut self, count: u32) -> (laid: u32)
        ensures
            laid == room_for(old(self).0 as int, count as int),
            final(self).0 == old(self).0 + laid,
            old(self).0 <= MAX_STROKES ==> final(self).0 <= MAX_STROKES,
            old(self).0 > MAX_STROKES ==> final(self).0 == old(self).0,
    {
        let room = if self.0 < MAX_STROKES {
            MAX_STROKES - self.0
        } else {
            0
        };
        let laid = if count < room {
            count
        } else {
            room
        };
        self.0 = self.0 + laid;
        laid
    }

    /// Count out a batch of strokes lifted off a canvas that has `present` of them on it.
    /// Returns how many are to be lifted: a batch, or all there are if fewer.
    pub fn lift(&mut self, present: u32) -> (lifted: u32)
        ensures
            lifted == if present < HOLD_BATCH { present } else { HOLD_BATCH },
            final(self).0 == if old(self).0 >= lifted { old(self).0 - lifted } else { 0 },
    {
        let lifted = if present < HOLD_BATCH {
            present
        } else {
            HOLD_BATCH
        };
        self.0 = if self.0 >= lifted {
            self.0 - lifted
        } else {
            0
        };
        lifted
    }
}

/// A fresh canvas is inside the limit, and however paint is added and lifted it stays there:
/// laying counts in no more than there is room for, and lifting only ever takes away.
pub proof fn the_canvas_holds_only_so_much(census: u32, count: u32, present: u32)
    requires
        census <= MAX_STROKES,
    ensures
        START_STROKES <= MAX_STROKES,
        census + room_for(census as int, count as int) <= MAX_STROKES,
        0 <= room_for(census as int, count as int) <= count,
        room_for(census as int, count as int) < count ==> census + room_for(census as int, count as int) == MAX_STROKES,
{
}

/// One tick of key repeat for the paint keys: fires the tick a key goes down, then again every
/// [`HOLD_PERIOD`] ticks once it has been held for [`HOLD_DELAY`].
pub fn repeating(held: &mut u32, down: bool) -> (fire: bool)
    requires
        down ==> *old(held) < u32::MAX,
    ensures
        fire == (down && fires_at(*old(held) as nat, HOLD_DELAY as nat, HOLD_PERIOD as nat)),
        *final(held) == if down {
            *old(held) + 1
        } else {
            0
        },
{
    repeat_key(held, down, HOLD_DELAY, HOLD_PERIOD)
}

/// Hang a star in the sky, if the sky has room for one. Whether it did.
pub fn hang_star<T>(stars: &mut Vec<T>, star: T) -> (hung: bool)
    ensures
        hung == (old(stars)@.len() < MAX_STARS),
        hung ==> final(stars)@ == old(stars)@.push(star),
        !hung ==> final(stars)@ == old(stars)@,
{
    if stars.len() < MAX_STARS {
        stars.push(star);
        true
    } else {
        false
    }
}

/// Take the last star down again. `None` from an empty sky.
pub fn take_down_star<T>(stars: &mut Vec<T>) -> (taken: Option<T>)
    ensures
        old(stars)@.len() == 0 ==> taken is None && final(stars)@ == old(stars)@,
        old(stars)@.len() > 0 ==> taken == Some(old(stars)@.last()) && final(stars)@
            == old(stars)@.drop_last(),
{
    stars.pop()
}

/// What hanging a star leaves of a sky.
pub open spec fn hung<T>(stars: Seq<T>, star: T) -> Seq<T> {
    if stars.len() < MAX_STARS {
        stars.push(star)
    } else {
        stars
    }
}

/// The sky never holds more than [`MAX_STARS`], and a star hung where there was room and then
/// taken down leaves the sky exactly as it was.
pub proof fn a_star_taken_down_is_gone<T>(stars: Seq<T>, star: T)
    ensures
        stars.len() <= MAX_STARS ==> hung(stars, star).len() <= MAX_STARS,
        stars.len() < MAX_STARS ==> hung(stars, star).drop_last() == stars && hung(stars, star).last()
            == star,
{
    if stars.len() < MAX_STARS {
        assert(stars.push(star).drop_last() =~= stars);
    }
}

/// One turn of the xorshift generator the underpainting is scattered with.
pub open spec fn xorshift(x: u32) -> u32 {
    let a = x ^ (x << 13u32);
    let b = a ^ (a >> 17u32);
    b ^ (b << 5u32)
}

/// A small deterministic generator, for scattering the underpainting. Kept apart from the
/// simulation's own stream: the coat is the view's business.
pub struct Dice(pub u32);

impl Dice {
    /// Turn the generator once, and draw the top 24 bits of its new state: a number below
    /// `2^24`, which the caller scales into `0..1`.
    pub fn roll(&mut self) -> (drawn: u32)
        ensures
            final(self).0 == xorshift(old(self).0),
            drawn == final(self).0 >> 8u32,
            drawn < 0x100_0000,
    {
        let x = self.0;
        let a = x ^ (x << 13u32);
        let b = a ^ (a >> 17u32);
        let c = b ^ (b << 5u32);
        self.0 = c;
        let drawn = c >> 8u32;
        assert(drawn < 0x100_0000) by (bit_vector)
            requires
                drawn == c >> 8u32,
        ;
        drawn
    }
}

/// The generator never sticks: a state that is not zero never turns into zero, so the dice keep
/// rolling for as long as they are seeded with anything but zero.
pub proof fn the_dice_never_stick(x: u32)
    requires
        x != 0,
    ensures
        xorshift(x) != 0,
{
    assert(x != 0 ==> (x ^ (x << 13u32)) != 0) by (bit_vector);
    let a = x ^ (x << 13u32);
    assert(a != 0 ==> (a ^ (a >> 17u32)) != 0) by (bit_vector);
    let b = a ^ (a >> 17u32);
    assert(b != 0 ==> (b ^ (b << 5u32)) != 0) by (bit_vector);
}

} // verus!
