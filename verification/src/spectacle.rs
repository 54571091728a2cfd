//! Spectacle: a fireworks show over dark water, put on for no reason but the watching.
//!
//! This module holds the show's programme and its bookkeeping: the five passages and the fixed
//! round they go in, what each one fires and how many at once, which colour slots a break
//! draws from, what a break sounds like, and the caps that keep the sky from holding more than
//! the tick can carry. Flight, drag and light are motion, and live with the caller.

use vstd::prelude::*;
use crate::payload::{parse_size, size_from_text, size_payload, size_text};

verus! {

/// Name of the resize command on the replayable command channel.
pub const FIELD_COMMAND: &'static str = "field";

/// The most stars in the sky at once. Not an aesthetic limit, a promise that the tick stays
/// quick even mid-finale.
pub const MAX_SPARKS: u32 = 32_000;
/// The most shells in the air at once.
pub const MAX_SHELLS: u32 = 240;

/// How many color slots a palette has to fill. The simulation picks slots by role, never by
/// color, so a palette can restyle the entire show without the shells knowing.
pub const COLOR_SLOTS: u8 = 8;
/// Color slots by role.
pub const RED: u8 = 0;
/// See [`RED`].
pub const ORANGE: u8 = 1;
/// See [`RED`].
pub const GOLD: u8 = 2;
/// See [`RED`].
pub const GREEN: u8 = 3;
/// See [`RED`].
pub const CYAN: u8 = 4;
/// See [`RED`].
pub const BLUE: u8 = 5;
/// See [`RED`].
pub const MAGENTA: u8 = 6;
/// See [`RED`].
pub const WHITE: u8 = 7;

/// What a shell does when it breaks.
#[derive(Clone, Copy, PartialEq, Eq, Debug, Structural)]
pub enum Break {
    /// A clean sphere of stars.
    Peony,
    /// A sphere whose every star draws a tail behind it.
    Chrysanthemum,
    /// Heavy, slow stars that hang and then droop most of the way to the water.
    Willow,
    /// A circle of stars seen at an angle, so it reads as a tilted hoop.
    Ring,
    /// A few thick fronds thrown out from a common center.
    Palm,
    /// Stars that fly out, pause, and split into small crosses.
    Crossette,
    /// A hard white flash and a crack, with almost nothing left over.
    Salute,
    /// A slow cloud of stars that blink out of step with each other.
    Strobe,
    /// Not a break at all: a fan of stars fired straight off the water.
    Mine,
}

/// A voice in the show's noise.
#[derive(Clone, Copy, PartialEq, Eq, Debug, Structural)]
pub enum Voice {
    /// The thump of a mortar and the hiss of a shell leaving it.
    Launch,
    /// The body of a break.
    Boom,
    /// The hard crack of a salute.
    Crack,
    /// The rattle of small stars going off after one.
    Crackle,
}

/// Which passage of the show is running.
#[derive(Clone, Copy, PartialEq, Eq, Debug, Structural)]
pub enum Act {
    /// Single shells with room around them, so the eye learns the scale.
    Overture,
    /// More of them, closer together, bigger.
    Rise,
    /// Overlapping breaks, one on top of the last.
    Cascade,
    /// Almost nothing: a willow or two, and the smoke clearing.
    Hush,
    /// Everything at once, until it stops.
    Finale,
}

/// What the overture fires. Repeats are weight.
pub const OVERTURE_PICKS: [Break; 6] = [
    Break::Peony,
    Break::Peony,
    Break::Peony,
    Break::Chrysanthemum,
    Break::Ring,
    Break::Willow,
];

/// What the rise fires.
pub const RISE_PICKS: [Break; 9] = [
    Break::Peony,
    Break::Peony,
    Break::Chrysanthemum,
    Break::Chrysanthemum,
    Break::Ring,
    Break::Palm,
    Break::Crossette,
    Break::Strobe,
    Break::Willow,
];

/// What the cascade fires.
pub const CASCADE_PICKS: [Break; 8] = [
    Break::Peony,
    Break::Chrysanthemum,
    Break::Crossette,
    Break::Ring,
    Break::Palm,
    Break::Salute,
    Break::Strobe,
    Break::Mine,
];

/// What the hush fires.
pub const HUSH_PICKS: [Break; 5] = [
    Break::Willow,
    Break::Willow,
    Break::Willow,
    Break::Chrysanthemum,
    Break::Ring,
];

/// What the finale fires.
pub const FINALE_PICKS: [Break; 9] = [
    Break::Peony,
    Break::Chrysanthemum,
    Break::Crossette,
    Break::Palm,
    Break::Salute,
    Break::Ring,
    Break::Mine,
    Break::Strobe,
    Break::Willow,
];

impl Act {
    /// The passage after this one, as a function.
    pub open spec fn next_spec(self) -> Act {
        match self {
            Act::Overture => Act::Rise,
            Act::Rise => Act::Cascade,
            Act::Cascade => Act::Hush,
            Act::Hush => Act::Finale,
            Act::Finale => Act::Overture,
        }
    }

    /// Fewest and most shells in one launch, as a function.
    pub open spec fn salvo_spec(self) -> (i32, i32) {
        match self {
            Act::Overture => (1, 2),
            Act::Rise => (1, 3),
            Act::Cascade => (1, 4),
            Act::Hush => (1, 2),
            Act::Finale => (2, 5),
        }
    }

    /// How long this passage runs, in whole seconds, as a function.
    pub open spec fn duration_spec(self) -> u32 {
        match self {
            Act::Overture => 26,
            Act::Rise => 40,
            Act::Cascade => 34,
            Act::Hush => 16,
            Act::Finale => 22,
        }
    }

    /// What this passage fires, as a sequence.
    pub open spec fn repertoire_spec(self) -> Seq<Break> {
        match self {
            Act::Overture => OVERTURE_PICKS@,
            Act::Rise => RISE_PICKS@,
            Act::Cascade => CASCADE_PICKS@,
            Act::Hush => HUSH_PICKS@,
            Act::Finale => FINALE_PICKS@,
        }
    }

    /// What to call it on screen, as a sequence.
    pub open spec fn name_spec(self) -> Seq<char> {
        match self {
            Act::Overture => "overture"@,
            Act::Rise => "rise"@,
            Act::Cascade => "cascade"@,
            Act::Hush => "hush"@,
            Act::Finale => "finale"@,
        }
    }

    /// How long this passage runs, in seconds. Every passage is a whole number of them.
    pub fn duration(self) -> (seconds: u32)
        ensures
            seconds == self.duration_spec(),
            seconds > 0,
    {
        match self {
            Act::Overture => 26,
            Act::Rise => 40,
            Act::Cascade => 34,
            Act::Hush => 16,
            Act::Finale => 22,
        }
    }

    /// Fewest and most shells in one launch.
    pub fn salvo(self) -> (range: (i32, i32))
        ensures
            range == self.salvo_spec(),
    {
        match self {
            Act::Overture => (1, 2),
            Act::Rise => (1, 3),
            Act::Cascade => (1, 4),
            Act::Hush => (1, 2),
            Act::Finale => (2, 5),
        }
    }

    /// What this passage fires. Repeats in the list are weight: the overture is mostly peonies
    /// because a first impression should be the plainest possible version of the thing.
    pub fn repertoire(self) -> (picks: &'static [Break])
        ensures
            picks@ == self.repertoire_spec(),
    {
        match self {
            Act::Overture => &OVERTURE_PICKS,
            Act::Rise => &RISE_PICKS,
            Act::Cascade => &CASCADE_PICKS,
            Act::Hush => &HUSH_PICKS,
            Act::Finale => &FINALE_PICKS,
        }
    }

    /// The passage after this one. The round is fixed, so the show has a shape you can learn
    /// without ever being able to predict a single shell.
    pub fn next(self) -> (after: Act)
        ensures
            after == self.next_spec(),
    {
        match self {
            Act::Overture => Act::Rise,
            Act::Rise => Act::Cascade,
            Act::Cascade => Act::Hush,
            Act::Hush => Act::Finale,
            Act::Finale => Act::Overture,
        }
    }

    /// What to call it on screen.
    pub fn name(self) -> (name: &'static str)
        ensures
            name@ == self.name_spec(),
    {
        match self {
            Act::Overture => "overture",
            Act::Rise => "rise",
            Act::Cascade => "cascade",
            Act::Hush => "hush",
            Act::Finale => "finale",
        }
    }
}

/// The passage `steps` passages on from `act`.
pub open spec fn acts_on(act: Act, steps: nat) -> Act
    decreases steps,
{
    if steps == 0 {
        act
    } else {
        acts_on(act, (steps - 1) as nat).next_spec()
    }
}

/// The programme is a round: five passages, each visited once, and then the first again.
/// Every passage fires at least one shell a launch, never fewer than it promises at most, and
/// always has something to fire.
pub proof fn the_programme_is_a_round(act: Act)
    ensures
        acts_on(act, 5) == act,
        forall|i: nat, j: nat| i < j < 5 ==> acts_on(act, i) != acts_on(act, j),
        1 <= act.salvo_spec().0 <= act.salvo_spec().1,
        act.repertoire_spec().len() > 0,
        act.name_spec().len() > 0,
        act.duration_spec() > 0,
{
    reveal_with_fuel(acts_on, 6);
    reveal_strlit("overture");
    reveal_strlit("rise");
    reveal_strlit("cascade");
    reveal_strlit("hush");
    reveal_strlit("finale");
    assert(OVERTURE_PICKS@.len() == 6);
    assert(RISE_PICKS@.len() == 9);
    assert(CASCADE_PICKS@.len() == 8);
    assert(HUSH_PICKS@.len() == 5);
    assert(FINALE_PICKS@.len() == 9);
}

/// The programme runs overture, rise, cascade, hush, finale, and then the overture again.
pub proof fn the_programme_runs_in_order()
    ensures
        Act::Overture.next_spec() == Act::Rise,
        Act::Rise.next_spec() == Act::Cascade,
        Act::Cascade.next_spec() == Act::Hush,
        Act::Hush.next_spec() == Act::Finale,
        Act::Finale.next_spec() == Act::Overture,
{
}

/// The programme as it is written: how long each passage runs, how many shells it sends up at
/// once, and what it fires, in the weights it fires them. One round lasts 138 seconds.
pub proof fn the_programme_as_written()
    ensures
        Act::Overture.duration_spec() == 26 && Act::Rise.duration_spec() == 40 && Act::Cascade.duration_spec()
            == 34 && Act::Hush.duration_spec() == 16 && Act::Finale.duration_spec() == 22,
        Act::Overture.duration_spec() + Act::Rise.duration_spec() + Act::Cascade.duration_spec()
            + Act::Hush.duration_spec() + Act::Finale.duration_spec() == 138,
        Act::Overture.salvo_spec() == (1i32, 2i32) && Act::Rise.salvo_spec() == (1i32, 3i32)
            && Act::Cascade.salvo_spec() == (1i32, 4i32) && Act::Hush.salvo_spec() == (1i32, 2i32)
            && Act::Finale.salvo_spec() == (2i32, 5i32),
        Act::Overture.repertoire_spec() == seq![
            Break::Peony,
            Break::Peony,
            Break::Peony,
            Break::Chrysanthemum,
            Break::Ring,
            Break::Willow,
        ],
        Act::Rise.repertoire_spec() == seq![
            Break::Peony,
            Break::Peony,
            Break::Chrysanthemum,
            Break::Chrysanthemum,
            Break::Ring,
            Break::Palm,
            Break::Crossette,
            Break::Strobe,
            Break::Willow,
        ],
        Act::Cascade.repertoire_spec() == seq![
            Break::Peony,
            Break::Chrysanthemum,
            Break::Crossette,
            Break::Ring,
            Break::Palm,
            Break::Salute,
            Break::Strobe,
            Break::Mine,
        ],
        Act::Hush.repertoire_spec() == seq![
            Break::Willow,
            Break::Willow,
            Break::Willow,
            Break::Chrysanthemum,
            Break::Ring,
        ],
        Act::Finale.repertoire_spec() == seq![
            Break::Peony,
            Break::Chrysanthemum,
            Break::Crossette,
            Break::Palm,
            Break::Salute,
            Break::Ring,
            Break::Mine,
            Break::Strobe,
            Break::Willow,
        ],
{
    assert(Act::Overture.repertoire_spec() =~= seq![
        Break::Peony,
        Break::Peony,
        Break::Peony,
        Break::Chrysanthemum,
        Break::Ring,
        Break::Willow,
    ]);
    assert(Act::Rise.repertoire_spec() =~= seq![
        Break::Peony,
        Break::Peony,
        Break::Chrysanthemum,
        Break::Chrysanthemum,
        Break::Ring,
        Break::Palm,
        Break::Crossette,
        Break::Strobe,
        Break::Willow,
    ]);
    assert(Act::Cascade.repertoire_spec() =~= seq![
        Break::Peony,
        Break::Chrysanthemum,
        Break::Crossette,
        Break::Ring,
        Break::Palm,
        Break::Salute,
        Break::Strobe,
        Break::Mine,
    ]);
    assert(Act::Hush.repertoire_spec() =~= seq![
        Break::Willow,
        Break::Willow,
        Break::Willow,
        Break::Chrysanthemum,
        Break::Ring,
    ]);
    assert(Act::Finale.repertoire_spec() =~= seq![
        Break::Peony,
        Break::Chrysanthemum,
        Break::Crossette,
        Break::Palm,
        Break::Salute,
        Break::Ring,
        Break::Mine,
        Break::Strobe,
        Break::Willow,
    ]);
}

/// Everything at once: the finale sends up more shells in a launch than any other passage, at
/// its fewest and at its most, and fires every kind of break there is.
pub proof fn the_finale_is_everything_at_once(act: Act, kind: Break)
    ensures
        act != Act::Finale ==> act.salvo_spec().0 < Act::Finale.salvo_spec().0 && act.salvo_spec().1
            < Act::Finale.salvo_spec().1,
        Act::Finale.repertoire_spec().contains(kind),
{
    the_programme_as_written();
    let f = Act::Finale.repertoire_spec();
    match kind {
        Break::Peony => assert(f[0] == kind),
        Break::Chrysanthemum => assert(f[1] == kind),
        Break::Crossette => assert(f[2] == kind),
        Break::Palm => assert(f[3] == kind),
        Break::Salute => assert(f[4] == kind),
        Break::Ring => assert(f[5] == kind),
        Break::Mine => assert(f[6] == kind),
        Break::Strobe => assert(f[7] == kind),
        Break::Willow => assert(f[8] == kind),
    }
}

/// How a break's colours are chosen: a willow is gold and a salute white, in both slots; any
/// other break keeps its first slot, repeats it when it is to be one colour, takes its second
/// when that differs, and otherwise the slot `1 + bump` further round, so a two-colour break
/// always shows two colours.
pub proof fn how_colours_are_chosen(kind: Break, first: u8, same: bool, second: u8, bump: u8)
    requires
        first < COLOR_SLOTS,
        second < COLOR_SLOTS,
        bump < 3,
    ensures
        kind == Break::Willow ==> colors_for(kind, first, same, second, bump) == (GOLD, GOLD),
        kind == Break::Salute ==> colors_for(kind, first, same, second, bump) == (WHITE, WHITE),
        kind != Break::Willow && kind != Break::Salute ==> ({
            let colors = colors_for(kind, first, same, second, bump);
            &&& colors.0 == first
            &&& same ==> colors.1 == first
            &&& !same && second != first ==> colors.1 == second
            &&& !same && second == first ==> colors.1 as int == (first + 1 + bump) % 8
            &&& !same ==> colors.1 != first
        }),
{
}

/// `F` brings the finale forward, from any passage but the finale itself.
pub fn finale_forward(act: Act, key: bool) -> (jump: bool)
    ensures
        jump == (key && act != Act::Finale),
{
    key && !matches!(act, Act::Finale)
}

/// The two colour slots a break draws from, given the draws that decide them: `first` and
/// `second` are slots, `same` is the coin toss for a one-colour break, and `bump` how far past
/// the first slot a clashing second one is moved.
pub open spec fn colors_for(kind: Break, first: u8, same: bool, second: u8, bump: u8) -> (u8, u8) {
    match kind {
        Break::Willow => (GOLD, GOLD),
        Break::Salute => (WHITE, WHITE),
        _ => if same {
            (first, first)
        } else if second == first {
            (first, ((first + 1 + bump) % (COLOR_SLOTS as int)) as u8)
        } else {
            (first, second)
        },
    }
}

/// Pick the two color slots a break draws from.
///
/// Willows are gold and salutes are white because that is what they are made of, not because
/// it looks nice. Everything else takes one slot, and half the time a second, since a two-color
/// break is the cheapest way to make a plain sphere interesting.
pub fn choose_colors(kind: Break, first: u8, same: bool, second: u8, bump: u8) -> (colors: (u8, u8))
    requires
        first < COLOR_SLOTS,
        second < COLOR_SLOTS,
        bump < 3,
    ensures
        colors == colors_for(kind, first, same, second, bump),
        colors.0 < COLOR_SLOTS && colors.1 < COLOR_SLOTS,
        kind != Break::Willow && kind != Break::Salute && !same ==> colors.0 != colors.1,
{
    match kind {
        Break::Willow => (GOLD, GOLD),
        Break::Salute => (WHITE, WHITE),
        _ => {
            if same {
                (first, first)
            } else {
                let mut other = second;
                if other == first {
                    other = (first + 1 + bump) % COLOR_SLOTS;
                }
                (first, other)
            }
        },
    }
}

/// What is in the sky.
#[derive(Clone, Copy, PartialEq, Eq, Debug, Default, Structural)]
pub struct Census {
    /// Stars burning.
    pub sparks: u32,
    /// Shells climbing.
    pub shells: u32,
}

/// The sky holds no more than it promises to.
pub open spec fn within_caps(census: Census) -> bool {
    census.sparks <= MAX_SPARKS && census.shells <= MAX_SHELLS
}

/// Put one star in the sky, if there is room for it: whether there was.
pub fn add_spark(census: &mut Census) -> (added: bool)
    ensures
        added == (old(census).sparks < MAX_SPARKS),
        final(census).sparks == old(census).sparks + if added { 1u32 } else { 0u32 },
        final(census).shells == old(census).shells,
        within_caps(*old(census)) ==> within_caps(*final(census)),
{
    if census.sparks >= MAX_SPARKS {
        return false;
    }
    census.sparks = census.sparks + 1;
    true
}

/// Send one shell up, if there is room in the air for it: whether there was. A mine has no
/// flight and is never counted as a shell.
pub fn add_shell(census: &mut Census) -> (added: bool)
    ensures
        added == (old(census).shells < MAX_SHELLS),
        final(census).shells == old(census).shells + if added { 1u32 } else { 0u32 },
        final(census).sparks == old(census).sparks,
        within_caps(*old(census)) ==> within_caps(*final(census)),
{
    if census.shells >= MAX_SHELLS {
        return false;
    }
    census.shells = census.shells + 1;
    true
}

/// A star has gone out.
pub fn spark_out(census: &mut Census)
    ensures
        final(census).sparks as int == if old(census).sparks > 0 {
            old(census).sparks - 1
        } else {
            0
        },
        final(census).shells == old(census).shells,
        within_caps(*old(census)) ==> within_caps(*final(census)),
{
    census.sparks = census.sparks.saturating_sub(1);
}

/// A shell has broken.
pub fn shell_out(census: &mut Census)
    ensures
        final(census).shells as int == if old(census).shells > 0 {
            old(census).shells - 1
        } else {
            0
        },
        final(census).sparks == old(census).sparks,
        within_caps(*old(census)) ==> within_caps(*final(census)),
{
    census.shells = census.shells.saturating_sub(1);
}

/// How many puffs of smoke a break leaves behind: one for a salute, three for anything else.
pub fn smoke_puffs(kind: Break) -> (puffs: u32)
    ensures
        puffs == if kind == Break::Salute { 1u32 } else { 3u32 },
{
    if matches!(kind, Break::Salute) {
        1
    } else {
        3
    }
}

/// The reports a break puts on the queue, in the order it puts them there. `crackle` is the
/// toss that gives an ordinary break a rattle after it; a strobe always has one.
pub open spec fn break_voices(kind: Break, crackle: bool) -> Seq<Voice> {
    let split = if kind == Break::Crossette { seq![Voice::Crackle] } else { Seq::<Voice>::empty() };
    split + match kind {
        Break::Salute => seq![Voice::Crack, Voice::Crackle],
        Break::Mine => Seq::<Voice>::empty(),
        _ => if kind == Break::Strobe || crackle {
            seq![Voice::Boom, Voice::Crackle]
        } else {
            seq![Voice::Boom]
        },
    }
}

/// Every break is heard but a mine: a salute cracks, anything else booms, once. Only a salute
/// cracks, and a mine makes no report at all. A strobe always rattles after its boom, a
/// crossette always rattles as it splits, and any other booming break rattles exactly when the
/// toss says so. A break never sounds like a launch.
pub proof fn every_break_but_a_mine_is_heard(kind: Break, crackle: bool)
    ensures
        kind == Break::Mine <==> break_voices(kind, crackle).len() == 0,
        kind == Break::Salute <==> break_voices(kind, crackle).contains(Voice::Crack),
        kind != Break::Mine && kind != Break::Salute <==> break_voices(kind, crackle).contains(Voice::Boom),
        kind != Break::Mine ==> break_voices(kind, crackle).len() <= 3,
        kind == Break::Salute || kind == Break::Strobe || kind == Break::Crossette ==> break_voices(kind, crackle).contains(Voice::Crackle),
        kind != Break::Salute && kind != Break::Strobe && kind != Break::Crossette && kind != Break::Mine ==> (
            break_voices(kind, crackle).contains(Voice::Crackle) <==> crackle),
        !break_voices(kind, crackle).contains(Voice::Launch),
        kind != Break::Mine && kind != Break::Crossette ==> (break_voices(kind, crackle)[0] == Voice::Boom
            || break_voices(kind, crackle)[0] == Voice::Crack),
        kind == Break::Crossette ==> break_voices(kind, crackle)[0] == Voice::Crackle && break_voices(
            kind,
            crackle,
        )[1] == Voice::Boom,
        forall|i: int|
            0 <= i < break_voices(kind, crackle).len() && i != (if kind == Break::Crossette { 1int } else { 0int })
                ==> #[trigger] break_voices(kind, crackle)[i] == Voice::Crackle,
{
    let v = break_voices(kind, crackle);
    match kind {
        Break::Mine => {
            assert(v =~= Seq::<Voice>::empty());
        },
        Break::Salute => {
            assert(v =~= seq![Voice::Crack, Voice::Crackle]);
            assert(v[0] == Voice::Crack && v[1] == Voice::Crackle);
        },
        Break::Crossette => {
            if crackle {
                assert(v =~= seq![Voice::Crackle, Voice::Boom, Voice::Crackle]);
            } else {
                assert(v =~= seq![Voice::Crackle, Voice::Boom]);
            }
            assert(v[0] == Voice::Crackle && v[1] == Voice::Boom);
        },
        _ => {
            if kind == Break::Strobe || crackle {
                assert(v =~= seq![Voice::Boom, Voice::Crackle]);
                assert(v[0] == Voice::Boom && v[1] == Voice::Crackle);
            } else {
                assert(v =~= seq![Voice::Boom]);
                assert(v[0] == Voice::Boom);
            }
        },
    }
}

/// The reports a break puts on the queue: a crossette's splits first, then a salute's crack
/// and its rattle, nothing for a mine (its boom went with the launch), and otherwise the boom
/// with, sometimes, a rattle after it.
pub fn voices_of(kind: Break, crackle: bool) -> (voices: Vec<Voice>)
    ensures
        voices@ == break_voices(kind, crackle),
{
    let mut voices: Vec<Voice> = Vec::new();
    if matches!(kind, Break::Crossette) {
        voices.push(Voice::Crackle);
    }
    match kind {
        Break::Salute => {
            voices.push(Voice::Crack);
            voices.push(Voice::Crackle);
        },
        Break::Mine => {},
        _ => {
            voices.push(Voice::Boom);
            if matches!(kind, Break::Strobe) || crackle {
                voices.push(Voice::Crackle);
            }
        },
    }
    assert(voices@ =~= break_voices(kind, crackle));
    voices
}

/// Encode a field size for [`FIELD_COMMAND`]: whole units, so it round-trips exactly.
pub fn field_payload(width: i32, height: i32) -> (text: String)
    ensures
        text@ == size_text(width, height),
{
    size_payload(width, height)
}

/// Decode a [`field_payload`]. `None` for anything malformed or degenerate.
pub fn parse_field(payload: &str) -> (size: Option<(i32, i32)>)
    ensures
        size == size_from_text(payload@),
{
    parse_size(payload)
}

} // verus!
