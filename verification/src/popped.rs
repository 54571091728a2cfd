//! Popped: hot-air balloons full of cheerful animals, and a mouse pointer.
//!
//! This module holds the part of the piece that is decided rather than flown: what an animal is
//! doing about its situation and what it does next, who gets counted for what, how many
//! balloons may be up at once, and what the scoreboard says about you. The flying, the falling
//! and the bouncing are motion; what they come to is handed in here as a handful of facts
//! ([`Senses`]) and the consequences come back out.
//!
//! The promises the piece makes are all about this part. Nobody falls straight out of a
//! basket: a popped balloon gives everybody in it a beat first. Nobody bounces more than
//! [`MAX_BOUNCES`] times. Everybody who comes down is counted as landed once, and once on the
//! ground nobody goes back up.

use vstd::prelude::*;

verus! {

/// The most balloons in the sky at once.
pub const MAX_BALLOONS: u32 = 16;
/// The most times anybody bounces.
pub const MAX_BOUNCES: u32 = 2;
/// How many coats of paint there are to choose from.
pub const COATS: u8 = 8;

/// Who is in the basket.
#[derive(Clone, Copy, PartialEq, Eq, Debug, Structural)]
pub enum Species {
    /// Round, calm, slow to react.
    Bear,
    /// Ears you can see from the ground.
    Rabbit,
    /// Pointed ears and no dignity to lose.
    Cat,
    /// Small, round, delighted by everything.
    Pig,
    /// Bulging eyes, bounces best.
    Frog,
}

impl Species {
    /// All of them, for picking one.
    pub const ALL: [Species; 5] = [
        Species::Bear,
        Species::Rabbit,
        Species::Cat,
        Species::Pig,
        Species::Frog,
    ];
}

/// What an animal is doing about its situation.
#[derive(Clone, Copy, PartialEq, Eq, Debug, Structural)]
pub enum Mood {
    /// Enjoying the ride.
    Riding,
    /// Has noticed. Has not yet fallen.
    Beat,
    /// Falling, and making that clear.
    Falling,
    /// Descending under a parachute, with enormous dignity.
    Chuting,
    /// Sitting on the ground seeing stars.
    Dazed,
    /// Landed on its feet, and taking a moment about it.
    Bowing,
    /// Walking off, shaking a fist.
    Trudging,
}

impl Mood {
    /// Whether gravity is allowed an opinion, as a predicate.
    pub open spec fn falls_spec(self) -> bool {
        self == Mood::Falling
    }

    /// Whether this animal is on the ground, as a predicate.
    pub open spec fn grounded_spec(self) -> bool {
        self == Mood::Dazed || self == Mood::Bowing || self == Mood::Trudging
    }

    /// Whether gravity is currently allowed to have an opinion.
    pub fn falls(self) -> (b: bool)
        ensures
            b == self.falls_spec(),
    {
        matches!(self, Mood::Falling)
    }

    /// Whether this animal is on the ground and sorting itself out.
    pub fn grounded(self) -> (b: bool)
        ensures
            b == self.grounded_spec(),
    {
        matches!(self, Mood::Dazed | Mood::Bowing | Mood::Trudging)
    }
}

/// Who is responsible.
#[derive(Clone, Copy, PartialEq, Eq, Debug, Structural)]
pub enum Blame {
    /// You are.
    Pointer,
    /// A falling animal went through it, which is nobody's fault except still yours.
    Falling,
}

/// A noise for the view to make.
#[derive(Clone, Copy, PartialEq, Eq, Debug, Structural)]
pub enum Voice {
    /// A balloon going.
    Pop,
    /// An animal, on the way down.
    Scream,
    /// An animal, arriving.
    Bonk,
    /// An animal, arriving and leaving again.
    Boing,
    /// A balloon skin flying round the sky.
    Raspberry,
    /// A balloon that got away, which is a good outcome and sounds like one.
    Chime,
}

/// The running total, which is also the punchline.
#[derive(Clone, Copy, PartialEq, Eq, Debug, Default, Structural)]
pub struct Tally {
    /// Balloons you have popped yourself.
    pub popped: u32,
    /// Balloons popped by somebody who was already falling.
    pub chained: u32,
    /// Balloons that got away.
    pub escaped: u32,
    /// Animals who have landed and walked it off.
    pub landed: u32,
    /// Animals who came down under a parachute.
    pub chuted: u32,
    /// Animals who stuck the landing.
    pub graceful: u32,
}

/// How many things are in the sky.
#[derive(Clone, Copy, PartialEq, Eq, Debug, Default, Structural)]
pub struct Census {
    /// Balloons.
    pub balloons: u32,
    /// Animals, riding or otherwise.
    pub animals: u32,
}

/// The part of an animal that is decided rather than flown.
#[derive(Clone, Copy, PartialEq, Eq, Debug, Structural)]
pub struct Plight {
    /// What it is doing.
    pub mood: Mood,
    /// How many times it has bounced.
    pub bounces: u32,
    /// Whether it packed a parachute it has not yet remembered.
    pub chute: bool,
    /// Whether it is going to land on its feet.
    pub graceful: bool,
}

/// What the motion of the tick came to, for one animal: the facts its next move turns on.
#[derive(Clone, Copy, PartialEq, Eq, Debug, Structural)]
pub struct Senses {
    /// While riding: whether the basket it sits in is still there.
    pub seated: bool,
    /// Whether the timer of what it is doing ran out this tick.
    pub timer_out: bool,
    /// While falling with a parachute packed: whether it has been falling long enough to
    /// remember it.
    pub chute_due: bool,
    /// Whether it reached the ground this tick.
    pub on_ground: bool,
    /// Whether it reached the ground hard enough to bounce.
    pub hard_hit: bool,
    /// While walking off: whether it has walked off the edge of the sky.
    pub walked_off: bool,
    /// Whether it ended up a long way outside the sky.
    pub lost: bool,
}

/// What one tick of an animal's life came to.
#[derive(Clone, Copy, PartialEq, Eq, Debug, Structural)]
pub struct Turn {
    /// It stopped hanging and started falling.
    pub dropped: bool,
    /// It remembered its parachute.
    pub chute_opened: bool,
    /// It hit the ground and went up again.
    pub bounced: bool,
    /// It arrived on the ground under its own weight, dazed or bowing.
    pub landed: bool,
    /// It arrived on the ground under a parachute.
    pub touched_down: bool,
    /// It is to be taken out of the sky, once for each reason.
    pub removals: u32,
}

/// What an animal does next, given what it is doing and what the tick came to.
///
/// The whole of the comedy is in this table. A popped balloon leaves its riders hanging
/// ([`Mood::Beat`]) until their timer runs out; then they fall. A packed parachute is remembered
/// mid-fall. A hard arrival bounces, up to [`MAX_BOUNCES`] times; any other arrival is a
/// landing, on the feet for the graceful and on the backside for everybody else, and after a
/// moment of that everybody walks off.
pub open spec fn next_plight(plight: Plight, senses: Senses) -> Plight {
    match plight.mood {
        Mood::Riding => plight,
        Mood::Beat => if senses.timer_out { Plight { mood: Mood::Falling, ..plight } } else { plight },
        Mood::Falling => {
            let opened = plight.chute && senses.chute_due;
            let after_chute = if opened {
                Plight { mood: Mood::Chuting, chute: false, ..plight }
            } else {
                plight
            };
            if !senses.on_ground {
                after_chute
            } else if senses.hard_hit && plight.bounces < MAX_BOUNCES {
                Plight { bounces: (plight.bounces + 1) as u32, ..after_chute }
            } else if plight.graceful {
                Plight { mood: Mood::Bowing, ..after_chute }
            } else {
                Plight { mood: Mood::Dazed, ..after_chute }
            }
        },
        Mood::Chuting => if senses.on_ground {
            Plight { mood: Mood::Trudging, ..plight }
        } else {
            plight
        },
        Mood::Dazed | Mood::Bowing => if senses.timer_out {
            Plight { mood: Mood::Trudging, ..plight }
        } else {
            plight
        },
        Mood::Trudging => plight,
    }
}

/// What the same tick came to, as events.
pub open spec fn next_turn(plight: Plight, senses: Senses) -> Turn {
    let falling = plight.mood == Mood::Falling;
    let opened = falling && plight.chute && senses.chute_due;
    let bounced = falling && senses.on_ground && senses.hard_hit && plight.bounces < MAX_BOUNCES;
    let landed = falling && senses.on_ground && !bounced;
    let skipped = plight.mood == Mood::Riding && !senses.seated;
    let walked = plight.mood == Mood::Trudging && senses.walked_off;
    Turn {
        dropped: plight.mood == Mood::Beat && senses.timer_out,
        chute_opened: opened,
        bounced,
        landed,
        touched_down: plight.mood == Mood::Chuting && senses.on_ground,
        removals: ((if walked { 1int } else { 0int }) + (if senses.lost && !skipped {
            1int
        } else {
            0int
        })) as u32,
    }
}

/// The tally after a turn: a landing is counted as one, a graceful landing as one more
/// graceful, a parachute as one more parachute and its touchdown as a landing.
pub open spec fn tallied(tally: Tally, plight: Plight, turn: Turn) -> Tally {
    Tally {
        landed: (tally.landed + if turn.landed || turn.touched_down { 1int } else { 0int }) as u32,
        graceful: (tally.graceful + if turn.landed && plight.graceful { 1int } else { 0int }) as u32,
        chuted: (tally.chuted + if turn.chute_opened { 1int } else { 0int }) as u32,
        ..tally
    }
}

/// Room in every count a turn can raise.
pub open spec fn tally_roomy(tally: Tally) -> bool {
    tally.landed < u32::MAX && tally.graceful < u32::MAX && tally.chuted < u32::MAX
}

/// One tick of an animal's life: its next mood and what it came to, with the tally and the
/// census brought up to date. The noises follow from the turn: a [`Voice::Boing`] for an
/// opened parachute and for a bounce, a [`Voice::Bonk`] for a landing.
pub fn live(plight: &mut Plight, tally: &mut Tally, census: &mut Census, senses: Senses) -> (turn:
    Turn)
    requires
        tally_roomy(*old(tally)),
    ensures
        *final(plight) == next_plight(*old(plight), senses),
        turn == next_turn(*old(plight), senses),
        *final(tally) == tallied(*old(tally), *old(plight), turn),
        final(census).balloons == old(census).balloons,
        final(census).animals as int == if old(census).animals >= turn.removals {
            old(census).animals - turn.removals
        } else {
            0
        },
{
    let start = *plight;
    let mut turn = Turn {
        dropped: false,
        chute_opened: false,
        bounced: false,
        landed: false,
        touched_down: false,
        removals: 0,
    };
    match plight.mood {
        Mood::Riding => {
            if !senses.seated {
                return turn;
            }
        },
        Mood::Beat => {
            if senses.timer_out {
                plight.mood = Mood::Falling;
                turn.dropped = true;
            }
        },
        Mood::Falling => {
            if plight.chute && senses.chute_due {
                plight.mood = Mood::Chuting;
                plight.chute = false;
                tally.chuted = tally.chuted + 1;
                turn.chute_opened = true;
            }
            if senses.on_ground {
                if senses.hard_hit && plight.bounces < MAX_BOUNCES {
                    plight.bounces = plight.bounces + 1;
                    turn.bounced = true;
                } else {
                    tally.landed = tally.landed + 1;
                    if plight.graceful {
                        plight.mood = Mood::Bowing;
                        tally.graceful = tally.graceful + 1;
                    } else {
                        plight.mood = Mood::Dazed;
                    }
                    turn.landed = true;
                }
            }
        },
        Mood::Chuting => {
            if senses.on_ground {
                plight.mood = Mood::Trudging;
                tally.landed = tally.landed + 1;
                turn.touched_down = true;
            }
        },
        Mood::Dazed | Mood::Bowing => {
            if senses.timer_out {
                plight.mood = Mood::Trudging;
            }
        },
        Mood::Trudging => {
            if senses.walked_off {
                census.animals = census.animals.saturating_sub(1);
                turn.removals = turn.removals + 1;
            }
        },
    }
    if senses.lost {
        census.animals = census.animals.saturating_sub(1);
        turn.removals = turn.removals + 1;
    }
    turn
}

/// A balloon has gone: everybody riding in its basket is cut loose and given their moment.
pub fn cut_loose(plight: &mut Plight)
    ensures
        *final(plight) == (Plight { mood: Mood::Beat, ..*old(plight) }),
{
    plight.mood = Mood::Beat;
}

/// Once an animal has left its basket it never gets back in, and nobody goes straight from a
/// basket to falling: a popped rider hangs for a beat first.
pub proof fn no_way_back(plight: Plight, senses: Senses)
    ensures
        plight.mood != Mood::Riding ==> next_plight(plight, senses).mood != Mood::Riding,
        plight.mood == Mood::Riding ==> next_plight(plight, senses) == plight,
        next_plight(plight, senses).mood == Mood::Falling ==> plight.mood == Mood::Beat
            || plight.mood == Mood::Falling,
{
}

/// Everybody on the ground walks off in the end: a dazed animal and a bowing one each take their
/// moment and then trudge off, and one that came down under a parachute trudges off as soon as
/// it touches the ground. Until its moment is up, a landed animal stays as it is.
pub proof fn everybody_walks_off(plight: Plight, senses: Senses)
    ensures
        (plight.mood == Mood::Dazed || plight.mood == Mood::Bowing) && senses.timer_out
            ==> next_plight(plight, senses) == (Plight { mood: Mood::Trudging, ..plight }),
        (plight.mood == Mood::Dazed || plight.mood == Mood::Bowing) && !senses.timer_out
            ==> next_plight(plight, senses) == plight,
        plight.mood == Mood::Chuting && senses.on_ground
            ==> next_plight(plight, senses) == (Plight { mood: Mood::Trudging, ..plight }),
        plight.mood == Mood::Trudging ==> next_plight(plight, senses) == plight,
{
}

/// How a fall ends: a hard hit bounces while bounces are left, and otherwise a graceful animal
/// lands on its feet and bows, and a clumsy one lands on its backside, dazed.
pub proof fn how_a_fall_ends(plight: Plight, senses: Senses)
    requires
        plight.mood == Mood::Falling,
        !(plight.chute && senses.chute_due),
        senses.on_ground,
    ensures
        senses.hard_hit && plight.bounces < MAX_BOUNCES ==> next_plight(plight, senses) == (Plight {
            bounces: (plight.bounces + 1) as u32,
            ..plight
        }),
        !(senses.hard_hit && plight.bounces < MAX_BOUNCES) && plight.graceful ==> next_plight(plight, senses)
            == (Plight { mood: Mood::Bowing, ..plight }),
        !(senses.hard_hit && plight.bounces < MAX_BOUNCES) && !plight.graceful ==> next_plight(plight, senses)
            == (Plight { mood: Mood::Dazed, ..plight }),
{
}

/// A parachute opens once, in the air, when it is due: the animal drifts down under it, and it
/// has no parachute left to open.
pub proof fn a_parachute_opens_once(plight: Plight, senses: Senses)
    requires
        plight.mood == Mood::Falling,
    ensures
        plight.chute && senses.chute_due && !senses.on_ground ==> next_plight(plight, senses) == (Plight {
            mood: Mood::Chuting,
            chute: false,
            ..plight
        }) && next_turn(plight, senses).chute_opened,
        !(plight.chute && senses.chute_due) ==> !next_turn(plight, senses).chute_opened,
        !plight.chute ==> !next_plight(plight, senses).chute,
        !senses.on_ground && !(plight.chute && senses.chute_due) ==> next_plight(plight, senses) == plight,
{
}

/// The tally keeps count of what happens to the animals: one more landing each time an animal
/// in the air comes to rest on the ground, one more graceful landing each time a faller comes
/// down on its feet, one more parachute each time a faller uses its own up; the balloon counts
/// are untouched.
pub proof fn the_tally_keeps_count(tally: Tally, plight: Plight, senses: Senses)
    requires
        tally_roomy(tally),
    ensures
        ({
            let after = tallied(tally, plight, next_turn(plight, senses));
            let next = next_plight(plight, senses);
            &&& after.landed == tally.landed + if !plight.mood.grounded_spec() && next.mood.grounded_spec() {
                1int
            } else {
                0int
            }
            &&& after.graceful == tally.graceful + if plight.mood == Mood::Falling && next.mood
                == Mood::Bowing {
                1int
            } else {
                0int
            }
            &&& after.chuted == tally.chuted + if plight.mood == Mood::Falling && plight.chute
                && !next.chute {
                1int
            } else {
                0int
            }
            &&& after.popped == tally.popped
            &&& after.chained == tally.chained
            &&& after.escaped == tally.escaped
        }),
{
}

/// Once on the ground an animal stays there, and nobody bounces more than [`MAX_BOUNCES`] times.
pub proof fn what_lands_stays_landed(plight: Plight, senses: Senses)
    requires
        plight.bounces <= MAX_BOUNCES,
    ensures
        plight.mood.grounded_spec() ==> next_plight(plight, senses).mood.grounded_spec(),
        next_plight(plight, senses).bounces <= MAX_BOUNCES,
        next_plight(plight, senses).bounces <= plight.bounces + 1,
{
}

/// An arrival on the ground is counted exactly when an animal in the air comes to rest on it:
/// a landing moves it from the air to the ground, and the ground to the ground never counts.
pub proof fn every_landing_is_counted_once(plight: Plight, senses: Senses)
    ensures
        (next_turn(plight, senses).landed || next_turn(plight, senses).touched_down) <==> (
        !plight.mood.grounded_spec() && next_plight(plight, senses).mood.grounded_spec()),
{
}

/// Nobody falls during the beat: an animal left hanging stays exactly as it is until its timer
/// runs out, and on the tick it does it starts to fall and nothing else happens to it. Only
/// being lost far outside the sky can take it away meanwhile.
pub proof fn nobody_falls_until_they_have_had_a_moment(plight: Plight, senses: Senses)
    requires
        plight.mood == Mood::Beat,
    ensures
        !senses.timer_out ==> next_plight(plight, senses) == plight && !next_turn(plight, senses).dropped,
        senses.timer_out ==> next_plight(plight, senses) == (Plight { mood: Mood::Falling, ..plight })
            && next_turn(plight, senses).dropped,
        !next_turn(plight, senses).chute_opened,
        !next_turn(plight, senses).bounced,
        !next_turn(plight, senses).landed,
        !next_turn(plight, senses).touched_down,
        next_turn(plight, senses).removals == if senses.lost { 1u32 } else { 0u32 },
{
}

/// Room for one more balloon.
pub open spec fn has_room(census: Census) -> bool {
    census.balloons < MAX_BALLOONS
}

/// Whether there is room in the sky for one more balloon: what the launcher asks before it
/// gets a rig ready.
pub fn room_in_the_sky(census: &Census) -> (room: bool)
    ensures
        room == has_room(*census),
{
    census.balloons < MAX_BALLOONS
}

/// How many go up in one basket: one passenger usually, sometimes a pair, occasionally a whole
/// outing. `single` and `pair` are the two coin tosses that decide it.
pub open spec fn riders_for(single: bool, pair: bool) -> u32 {
    if single {
        1
    } else if pair {
        2
    } else {
        3
    }
}

/// Send up another balloon, with somebody in it, if there is room in the sky: the number that
/// went up in its basket, or `None` when the sky is full.
pub fn launch(census: &mut Census, single: bool, pair: bool) -> (riders: Option<u32>)
    requires
        old(census).animals <= u32::MAX - 3,
    ensures
        has_room(*old(census)) ==> riders == Some(riders_for(single, pair)) && final(census).balloons
            == old(census).balloons + 1 && final(census).animals == old(census).animals
            + riders_for(single, pair),
        !has_room(*old(census)) ==> riders is None && *final(census) == *old(census),
        riders matches Some(k) ==> 1 <= k <= 3,
        old(census).balloons <= MAX_BALLOONS ==> final(census).balloons <= MAX_BALLOONS,
{
    if census.balloons >= MAX_BALLOONS {
        return None;
    }
    let riders = if single {
        1
    } else if pair {
        2
    } else {
        3
    };
    census.balloons = census.balloons + 1;
    census.animals = census.animals + riders;
    Some(riders)
}

/// The sky never holds more than [`MAX_BALLOONS`] balloons: a launch only happens with room
/// for it, and nothing else adds one.
pub proof fn the_sky_has_a_cap(census: Census, single: bool, pair: bool)
    requires
        census.balloons <= MAX_BALLOONS,
    ensures
        has_room(census) ==> census.balloons + 1 <= MAX_BALLOONS,
{
}

/// Balloons that are about to stop being balloons, gathered during the tick.
#[derive(Clone, Debug, Default)]
pub struct Departures {
    /// Balloons that have been popped, and what popped them.
    pub popped: Vec<(u64, Blame)>,
    /// Balloons that made it off the top of the sky.
    pub escaped: Vec<u64>,
}

/// Whether a balloon is already down as popped.
pub open spec fn listed(popped: Seq<(u64, Blame)>, balloon: u64) -> bool {
    exists|i: int| 0 <= i < popped.len() && #[trigger] popped[i].0 == balloon
}

/// No balloon is down as popped twice.
pub open spec fn no_repeats(popped: Seq<(u64, Blame)>) -> bool {
    forall|i: int, j: int| 0 <= i < j < popped.len() ==> popped[i].0 != popped[j].0
}

/// A click: the balloon under the pointer is down as popped by you. At most one a tick, and
/// the first thing to be listed, so the list starts out empty.
pub fn pop_by_pointer(departures: &mut Departures, balloon: u64)
    ensures
        final(departures).popped@ == old(departures).popped@.push((balloon, Blame::Pointer)),
        final(departures).escaped@ == old(departures).escaped@,
{
    departures.popped.push((balloon, Blame::Pointer));
}

/// Somebody on the way down went through a balloon: it is down as popped by a faller, unless
/// it is already down as popped.
pub fn pop_by_faller(departures: &mut Departures, balloon: u64)
    ensures
        final(departures).popped@ == if listed(old(departures).popped@, balloon) {
            old(departures).popped@
        } else {
            old(departures).popped@.push((balloon, Blame::Falling))
        },
        final(departures).escaped@ == old(departures).escaped@,
        no_repeats(old(departures).popped@) ==> no_repeats(final(departures).popped@),
{
    let mut i: usize = 0;
    while i < departures.popped.len()
        invariant
            i <= departures.popped@.len(),
            forall|k: int| 0 <= k < i ==> departures.popped@[k].0 != balloon,
        decreases departures.popped@.len() - i,
    {
        if departures.popped[i].0 == balloon {
            return;
        }
        i = i + 1;
    }
    departures.popped.push((balloon, Blame::Falling));
}

/// The tally and census after a balloon that is still in the sky has been popped.
pub fn settle_pop(tally: &mut Tally, census: &mut Census, blame: Blame)
    requires
        old(tally).popped < u32::MAX,
        old(tally).chained < u32::MAX,
    ensures
        final(census).balloons as int == if old(census).balloons > 0 {
            old(census).balloons - 1
        } else {
            0
        },
        final(census).animals == old(census).animals,
        *final(tally) == match blame {
            Blame::Pointer => Tally { popped: (old(tally).popped + 1) as u32, ..*old(tally) },
            Blame::Falling => Tally { chained: (old(tally).chained + 1) as u32, ..*old(tally) },
        },
{
    census.balloons = census.balloons.saturating_sub(1);
    match blame {
        Blame::Pointer => tally.popped = tally.popped + 1,
        Blame::Falling => tally.chained = tally.chained + 1,
    }
}

/// The tally and census after a balloon that is still in the sky has got away, with `riders`
/// still aboard.
pub fn settle_escape(tally: &mut Tally, census: &mut Census, riders: u32)
    requires
        old(tally).escaped < u32::MAX,
    ensures
        final(census).balloons as int == if old(census).balloons > 0 {
            old(census).balloons - 1
        } else {
            0
        },
        final(census).animals as int == if old(census).animals >= riders {
            old(census).animals - riders
        } else {
            0
        },
        *final(tally) == (Tally { escaped: (old(tally).escaped + 1) as u32, ..*old(tally) }),
{
    census.balloons = census.balloons.saturating_sub(1);
    census.animals = census.animals.saturating_sub(riders);
    tally.escaped = tally.escaped + 1;
}

/// What the scoreboard says about somebody who has popped `popped` balloons.
pub open spec fn verdict_text(popped: u32) -> Seq<char> {
    if popped == 0 {
        "a lovely day for a balloon ride"@
    } else if popped == 1 {
        "oh"@
    } else if popped <= 4 {
        "they are fine. they are basically fine."@
    } else if popped <= 9 {
        "the animals have noticed a pattern"@
    } else if popped <= 19 {
        "you are on a list"@
    } else if popped <= 39 {
        "the balloon association has been informed"@
    } else {
        "nobody was hurt. all of them are furious."@
    }
}

/// What the scoreboard says about you.
///
/// The counting is the joke's third act: the piece never stops you, never scores you, and never
/// says you should not have. It simply keeps a note.
pub fn verdict(tally: &Tally) -> (line: &'static str)
    ensures
        line@ == verdict_text(tally.popped),
{
    match tally.popped {
        0 => "a lovely day for a balloon ride",
        1 => "oh",
        2..=4 => "they are fine. they are basically fine.",
        5..=9 => "the animals have noticed a pattern",
        10..=19 => "you are on a list",
        20..=39 => "the balloon association has been informed",
        _ => "nobody was hurt. all of them are furious.",
    }
}


// ---------------------------------------------------------------------------------------
// how an animal is drawn
// ---------------------------------------------------------------------------------------

/// One of the parts an animal is drawn from.
#[derive(Clone, Copy, PartialEq, Eq, Debug, Structural)]
pub enum Role {
    /// Its shadow on the ground.
    Shadow,
    /// Its left leg.
    LegLeft,
    /// Its right leg.
    LegRight,
    /// Its left arm.
    ArmLeft,
    /// Its right arm.
    ArmRight,
    /// Its body.
    Body,
    /// Its left ear.
    EarLeft,
    /// Its right ear.
    EarRight,
    /// Its head.
    Head,
    /// Its muzzle.
    Muzzle,
    /// Its left eye.
    EyeLeft,
    /// Its right eye.
    EyeRight,
    /// Its mouth.
    Mouth,
    /// The exclamation mark over its head.
    Mark,
    /// One of the stars circling a dazed head.
    Star(u8),
    /// Its parachute.
    Chute,
}

/// Which eyes an animal is drawn with.
#[derive(Clone, Copy, PartialEq, Eq, Debug, Structural)]
pub enum Eyes {
    /// Pleased.
    Happy,
    /// Wide with shock.
    Shock,
    /// Spiralling.
    Dizzy,
    /// Just open.
    Open,
}

/// Which mouth an animal is drawn with.
#[derive(Clone, Copy, PartialEq, Eq, Debug, Structural)]
pub enum Mouth {
    /// A smile.
    Smile,
    /// A scream.
    Scream,
}

/// Whether a part is drawn on an animal in a mood: the shadow on anybody out of a basket, the
/// exclamation mark through the beat, the stars while dazed, the parachute while under one, and
/// everything else always.
pub open spec fn shows_spec(role: Role, mood: Mood) -> bool {
    match role {
        Role::Shadow => mood != Mood::Riding,
        Role::Mark => mood == Mood::Beat,
        Role::Star(_) => mood == Mood::Dazed,
        Role::Chute => mood == Mood::Chuting,
        _ => true,
    }
}

/// Whether a part is drawn on an animal in this mood.
pub fn shows(role: Role, mood: Mood) -> (drawn: bool)
    ensures
        drawn == shows_spec(role, mood),
{
    match role {
        Role::Shadow => !matches!(mood, Mood::Riding),
        Role::Mark => matches!(mood, Mood::Beat),
        Role::Star(_) => matches!(mood, Mood::Dazed),
        Role::Chute => matches!(mood, Mood::Chuting),
        _ => true,
    }
}

/// The face that goes with a mood.
pub open spec fn face_spec(mood: Mood) -> (Eyes, Mouth) {
    match mood {
        Mood::Riding | Mood::Bowing => (Eyes::Happy, Mouth::Smile),
        Mood::Beat | Mood::Falling => (Eyes::Shock, Mouth::Scream),
        Mood::Chuting => (Eyes::Happy, Mouth::Smile),
        Mood::Dazed => (Eyes::Dizzy, Mouth::Scream),
        Mood::Trudging => (Eyes::Open, Mouth::Smile),
    }
}

/// The eyes and the mouth an animal wears in a mood.
pub fn face(mood: Mood) -> (drawn: (Eyes, Mouth))
    ensures
        drawn == face_spec(mood),
{
    match mood {
        Mood::Riding | Mood::Bowing => (Eyes::Happy, Mouth::Smile),
        Mood::Beat | Mood::Falling => (Eyes::Shock, Mouth::Scream),
        Mood::Chuting => (Eyes::Happy, Mouth::Smile),
        Mood::Dazed => (Eyes::Dizzy, Mouth::Scream),
        Mood::Trudging => (Eyes::Open, Mouth::Smile),
    }
}

/// Whether the mouth is drawn open and red: while the animal has noticed and while it falls.
pub fn alarmed(mood: Mood) -> (red: bool)
    ensures
        red == (mood == Mood::Beat || mood == Mood::Falling),
{
    matches!(mood, Mood::Beat | Mood::Falling)
}

/// What the drawing says of a mood matches what the mood is: the exclamation mark is up for
/// exactly as long as the beat lasts, nobody in a basket casts a shadow, the parachute is drawn
/// only under a parachute, and a screaming mouth goes with shocked or dizzy eyes.
pub proof fn the_drawing_tells_the_mood(mood: Mood)
    ensures
        shows_spec(Role::Mark, mood) <==> mood == Mood::Beat,
        shows_spec(Role::Shadow, mood) <==> mood != Mood::Riding,
        shows_spec(Role::Chute, mood) <==> mood == Mood::Chuting,
        forall|i: u8| #[trigger] shows_spec(Role::Star(i), mood) <==> mood == Mood::Dazed,
        face_spec(mood).1 == Mouth::Scream <==> (face_spec(mood).0 == Eyes::Shock || face_spec(mood).0
            == Eyes::Dizzy),
        mood == Mood::Riding || mood == Mood::Bowing || mood == Mood::Chuting ==> face_spec(mood) == (
        Eyes::Happy, Mouth::Smile),
        mood == Mood::Beat || mood == Mood::Falling ==> face_spec(mood) == (Eyes::Shock, Mouth::Scream),
        mood == Mood::Dazed ==> face_spec(mood) == (Eyes::Dizzy, Mouth::Scream),
        mood == Mood::Trudging ==> face_spec(mood) == (Eyes::Open, Mouth::Smile),
        forall|role: Role|
            !(role is Shadow) && !(role is Mark) && !(role is Star) && !(role is Chute) ==> #[trigger] shows_spec(
                role,
                mood,
            ),
{
}

/// The scoreboard's note only ever gets longer in the tooth: nothing popped is a lovely day, one
/// is "oh", and the lines after that take over at two, five, ten, twenty and forty popped.
pub proof fn the_scoreboard_keeps_a_note(popped: u32)
    ensures
        popped == 0 ==> verdict_text(popped) == "a lovely day for a balloon ride"@,
        popped == 1 ==> verdict_text(popped) == "oh"@,
        2 <= popped <= 4 ==> verdict_text(popped) == "they are fine. they are basically fine."@,
        5 <= popped <= 9 ==> verdict_text(popped) == "the animals have noticed a pattern"@,
        10 <= popped <= 19 ==> verdict_text(popped) == "you are on a list"@,
        20 <= popped <= 39 ==> verdict_text(popped) == "the balloon association has been informed"@,
        40 <= popped ==> verdict_text(popped) == "nobody was hurt. all of them are furious."@,
{
}

} // verus!
