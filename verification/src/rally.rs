//! Rally: pong's shape without pong's game. Two paddles and one ball to start, then the court
//! keeps adding both, forever, on a schedule that nothing on the court can change.
//!
//! This module is the court's bookkeeping: who is in play, where a newcomer goes, what the
//! keys add, and what the schedule adds on every simulated tick. It hands back the arrivals it
//! has decided on; putting them on the court is the caller's business. The motion of the
//! balls and the paddles is not here.
//!
//! Two promises run through it. Every ball is told its spawn order, and the spawn orders are
//! always exactly `0..balls`, which is what the view spreads the spectrum over. And a paddle
//! always joins the thinner wall, so the two walls never differ by more than one.

use vstd::prelude::*;
use crate::keys::{fires_at, repeat_key};
use crate::payload::{parse_size, size_from_text, size_payload, size_text};

verus! {

/// Balls in play at startup.
pub const START_BALLS: u32 = 1;
/// Paddles at startup: one per side.
pub const START_PADDLES: u32 = 2;
/// A ball joins every this-many ticks of simulated time, indefinitely.
pub const BALL_EVERY: u64 = 300;
/// A paddle joins every this-many ticks of simulated time, indefinitely.
pub const PADDLE_EVERY: u64 = 540;
/// Ticks a spawn key must be held before it starts repeating.
pub const HOLD_DELAY: u32 = 18;
/// Ticks between arrivals once a held spawn key is repeating.
pub const HOLD_PERIOD: u32 = 4;
/// Name of the resize command on the replayable command channel.
pub const COURT_COMMAND: &'static str = "court";

/// Which wall a paddle defends.
#[derive(Clone, Copy, PartialEq, Eq, Debug, Structural)]
pub enum Side {
    /// The -X wall.
    Left,
    /// The +X wall.
    Right,
}

/// Who is in play. Kept as a count so that spawning never has to count entities.
#[derive(Clone, Copy, PartialEq, Eq, Debug, Default, Structural)]
pub struct Census {
    /// Balls in play.
    pub balls: u32,
    /// Paddles on the left wall.
    pub left: u32,
    /// Paddles on the right wall.
    pub right: u32,
}

/// What the run has produced. The closest thing to a score in a simulation nobody plays.
#[derive(Clone, Copy, PartialEq, Eq, Debug, Default, Structural)]
pub struct Stats {
    /// Ticks elapsed since the run started (paused ticks don't count).
    pub ticks: u64,
    /// Balls returned by a paddle.
    pub saves: u64,
    /// Balls that got past everyone and were served again.
    pub misses: u64,
}

/// How long each spawn key has been held, for key repeat.
#[derive(Clone, Copy, PartialEq, Eq, Debug, Default, Structural)]
pub struct Holds {
    /// Ticks the ball key has been down.
    pub ball: u32,
    /// Ticks the paddle key has been down.
    pub paddle: u32,
}

/// Something to put on the court.
#[derive(Clone, Copy, PartialEq, Eq, Debug, Structural)]
pub enum Arrival {
    /// A ball served from the center, with its spawn order.
    Ball {
        /// Its spawn order, `0..balls`.
        index: u32,
    },
    /// A paddle at the end of a wall, with its place along that wall.
    Paddle {
        /// Which wall.
        side: Side,
        /// Its index along that wall, from the bottom.
        slot: u32,
    },
}

impl Census {
    /// Paddles on one wall, as a number.
    pub open spec fn count_on(self, side: Side) -> nat {
        match side {
            Side::Left => self.left as nat,
            Side::Right => self.right as nat,
        }
    }

    /// No count is near the top of its range. Every function here that adds something asks
    /// for this, and only this, of the census it is given.
    pub open spec fn roomy(self) -> bool {
        self.balls < u32::MAX - 1 && self.left < u32::MAX - 1 && self.right < u32::MAX - 1
    }

    /// Paddles on both walls.
    pub fn paddles(&self) -> (total: u32)
        requires
            self.left + self.right <= u32::MAX,
        ensures
            total == self.left + self.right,
    {
        self.left + self.right
    }

    /// Paddles on one wall.
    pub fn on(&self, side: Side) -> (count: u32)
        ensures
            count == self.count_on(side),
    {
        match side {
            Side::Left => self.left,
            Side::Right => self.right,
        }
    }
}

/// The two walls never differ by more than one paddle.
pub open spec fn balanced(census: Census) -> bool {
    census.left <= census.right + 1 && census.right <= census.left + 1
}

/// The wall with fewer paddles, the left one on a tie.
pub open spec fn thinner(census: Census) -> Side {
    if census.left <= census.right {
        Side::Left
    } else {
        Side::Right
    }
}

/// The census with one more paddle on `side`.
pub open spec fn with_paddle(census: Census, side: Side) -> Census {
    match side {
        Side::Left => Census { left: (census.left + 1) as u32, ..census },
        Side::Right => Census { right: (census.right + 1) as u32, ..census },
    }
}

/// The census with one more ball.
pub open spec fn with_ball(census: Census) -> Census {
    Census { balls: (census.balls + 1) as u32, ..census }
}

/// The wall with fewer paddles, so the two sides stay in step.
pub fn thinner_side(census: &Census) -> (side: Side)
    ensures
        side == thinner(*census),
{
    if census.left <= census.right {
        Side::Left
    } else {
        Side::Right
    }
}

/// Serve a new ball: it is told its spawn order, which is how many balls there were before it.
pub fn add_ball(census: &mut Census) -> (arrival: Arrival)
    requires
        old(census).balls < u32::MAX,
    ensures
        *final(census) == with_ball(*old(census)),
        arrival == (Arrival::Ball { index: old(census).balls }),
{
    let index = census.balls;
    census.balls = census.balls + 1;
    Arrival::Ball { index }
}

/// Put a paddle at the end of a wall: it takes the next slot along that wall. Everyone already
/// on that wall gets a narrower band as a result, which is the view's business.
pub fn add_paddle(census: &mut Census, side: Side) -> (arrival: Arrival)
    requires
        old(census).count_on(side) < u32::MAX,
    ensures
        *final(census) == with_paddle(*old(census), side),
        arrival == (Arrival::Paddle { side, slot: old(census).count_on(side) as u32 }),
{
    let slot = census.on(side);
    match side {
        Side::Left => census.left = census.left + 1,
        Side::Right => census.right = census.right + 1,
    }
    Arrival::Paddle { side, slot }
}

/// A paddle added to the thinner wall keeps the walls in step.
pub proof fn thinner_keeps_balance(census: Census)
    requires
        balanced(census),
        census.left < u32::MAX,
        census.right < u32::MAX,
    ensures
        balanced(with_paddle(census, thinner(census))),
{
}

/// The spawn orders of the balls among some arrivals, in the order they arrived.
pub open spec fn spawn_orders(arrivals: Seq<Arrival>) -> Seq<u32>
    decreases arrivals.len(),
{
    if arrivals.len() == 0 {
        Seq::empty()
    } else {
        let earlier = spawn_orders(arrivals.drop_last());
        match arrivals.last() {
            Arrival::Ball { index } => earlier.push(index),
            Arrival::Paddle { .. } => earlier,
        }
    }
}

/// Whether some arrivals serve balls in turn: the balls among them are told `from`, `from + 1`,
/// and so on, one each, and `to` is where the count stands after them.
pub open spec fn serves(arrivals: Seq<Arrival>, from: int, to: int) -> bool {
    let orders = spawn_orders(arrivals);
    &&& to == from + orders.len()
    &&& forall|i: int| 0 <= i < orders.len() ==> #[trigger] orders[i] == from + i
}

/// A ball served next is told the count so far.
proof fn lemma_serves_ball(arrivals: Seq<Arrival>, from: int, to: int)
    requires
        serves(arrivals, from, to),
        0 <= to <= u32::MAX,
    ensures
        serves(arrivals.push(Arrival::Ball { index: to as u32 }), from, to + 1),
{
    let next = arrivals.push(Arrival::Ball { index: to as u32 });
    assert(next.drop_last() =~= arrivals);
}

/// A paddle serves no ball.
proof fn lemma_serves_paddle(arrivals: Seq<Arrival>, from: int, to: int, side: Side, slot: u32)
    requires
        serves(arrivals, from, to),
    ensures
        serves(arrivals.push(Arrival::Paddle { side, slot }), from, to),
{
    let next = arrivals.push(Arrival::Paddle { side, slot });
    assert(next.drop_last() =~= arrivals);
}

/// The balls among two runs of arrivals, one after the other, are those of the first run and
/// then those of the second.
pub proof fn lemma_spawn_orders_append(first: Seq<Arrival>, second: Seq<Arrival>)
    ensures
        spawn_orders(first + second) == spawn_orders(first) + spawn_orders(second),
    decreases second.len(),
{
    if second.len() == 0 {
        assert(first + second =~= first);
        assert(spawn_orders(first) + spawn_orders(second) =~= spawn_orders(first));
    } else {
        let shorter = second.drop_last();
        lemma_spawn_orders_append(first, shorter);
        assert((first + second).drop_last() =~= first + shorter);
        assert((first + second).last() == second.last());
        match second.last() {
            Arrival::Ball { index } => {
                assert(spawn_orders(first) + spawn_orders(second) =~= (spawn_orders(first)
                    + spawn_orders(shorter)).push(index));
            },
            Arrival::Paddle { .. } => {},
        }
    }
}

/// Every ball has its own place in the spectrum: two runs of arrivals that each serve balls in
/// turn, the second picking up where the first left off, serve balls in turn together. So from
/// an empty court, however the arrivals come, the balls' spawn orders are exactly `0..balls`,
/// with no gap and no repeat.
pub proof fn every_ball_has_its_own_place(first: Seq<Arrival>, second: Seq<Arrival>, from: int, middle: int, to: int)
    requires
        serves(first, from, middle),
        serves(second, middle, to),
    ensures
        serves(first + second, from, to),
        forall|i: int, j: int|
            0 <= i < j < spawn_orders(first + second).len() ==> spawn_orders(first + second)[i]
                != spawn_orders(first + second)[j],
{
    lemma_spawn_orders_append(first, second);
    let a = spawn_orders(first);
    let b = spawn_orders(second);
    assert forall|i: int| 0 <= i < (a + b).len() implies #[trigger] (a + b)[i] == from + i by {
        if i >= a.len() {
            assert((a + b)[i] == b[i - a.len()]);
        }
    }
}

/// The opening position: the census after one ball and a paddle on each wall.
pub open spec fn opening() -> Census {
    Census { balls: START_BALLS, left: 1, right: 1 }
}

/// Deal the opening position onto the census: one ball, then one paddle per wall, left first.
pub fn deal(census: &mut Census) -> (arrivals: Vec<Arrival>)
    requires
        old(census).roomy(),
    ensures
        *final(census) == (Census {
            balls: (old(census).balls + 1) as u32,
            left: (old(census).left + 1) as u32,
            right: (old(census).right + 1) as u32,
        }),
        arrivals@ == seq![
            Arrival::Ball { index: old(census).balls },
            Arrival::Paddle { side: Side::Left, slot: old(census).left },
            Arrival::Paddle { side: Side::Right, slot: old(census).right },
        ],
        serves(arrivals@, old(census).balls as int, final(census).balls as int),
{
    let mut arrivals: Vec<Arrival> = Vec::new();
    assert(spawn_orders(arrivals@) =~= Seq::<u32>::empty());
    let mut b: u32 = 0;
    while b < START_BALLS
        invariant
            b <= START_BALLS,
            old(census).roomy(),
            *census == (Census { balls: (old(census).balls + b) as u32, ..*old(census) }),
            arrivals@.len() == b,
            b == 1 ==> arrivals@[0] == (Arrival::Ball { index: old(census).balls }),
            serves(arrivals@, old(census).balls as int, census.balls as int),
        decreases START_BALLS - b,
    {
        let ghost before = arrivals@;
        let ghost count = census.balls as int;
        arrivals.push(add_ball(census));
        proof {
            lemma_serves_ball(before, old(census).balls as int, count);
        }
        b = b + 1;
    }
    let mut index: u32 = 0;
    while index < START_PADDLES
        invariant
            index <= START_PADDLES,
            old(census).roomy(),
            census.balls == old(census).balls + 1,
            census.left == old(census).left + if index >= 1 {
                1u32
            } else {
                0u32
            },
            census.right == old(census).right + if index >= 2 {
                1u32
            } else {
                0u32
            },
            arrivals@.len() == 1 + index,
            arrivals@[0] == (Arrival::Ball { index: old(census).balls }),
            index >= 1 ==> arrivals@[1] == (Arrival::Paddle {
                side: Side::Left,
                slot: old(census).left,
            }),
            index >= 2 ==> arrivals@[2] == (Arrival::Paddle {
                side: Side::Right,
                slot: old(census).right,
            }),
            serves(arrivals@, old(census).balls as int, census.balls as int),
        decreases START_PADDLES - index,
    {
        let side = if index % 2 == 0 {
            Side::Left
        } else {
            Side::Right
        };
        let ghost before = arrivals@;
        let ghost slot = census.count_on(side) as u32;
        arrivals.push(add_paddle(census, side));
        proof {
            lemma_serves_paddle(before, old(census).balls as int, census.balls as int, side, slot);
        }
        index = index + 1;
    }
    arrivals
}

/// Set up the opening position on an empty court: one paddle per wall, one ball.
pub fn open_court(census: &mut Census) -> (arrivals: Vec<Arrival>)
    requires
        *old(census) == Census::default_spec(),
    ensures
        *final(census) == opening(),
        arrivals@ == seq![
            Arrival::Ball { index: 0 },
            Arrival::Paddle { side: Side::Left, slot: 0 },
            Arrival::Paddle { side: Side::Right, slot: 0 },
        ],
        serves(arrivals@, 0, final(census).balls as int),
{
    deal(census)
}

impl Census {
    /// The empty census.
    pub open spec fn default_spec() -> Census {
        Census { balls: 0, left: 0, right: 0 }
    }
}

/// One tick of key repeat for a spawn key: fires the tick it goes down, then again every
/// [`HOLD_PERIOD`] ticks once it has been held for [`HOLD_DELAY`].
pub fn repeating(held: &mut u32, down: bool) -> (fire: bool)
    requires
        down ==> *old(held) < u32::MAX,
    ensures
        fire == (down && fires_at(*old(held) as nat, HOLD_DELAY as nat, HOLD_PERIOD as nat)),
        *final(held) == if down {
            *old(held) + 1
        } else {
            0
        },
{
    repeat_key(held, down, HOLD_DELAY, HOLD_PERIOD)
}

/// B adds a ball, P adds a paddle to the thinner wall, and holding either keeps them coming.
/// Neither has a limit to bump against, and both work while paused.
pub fn population_controls(
    census: &mut Census,
    holds: &mut Holds,
    ball_key: bool,
    paddle_key: bool,
) -> (arrivals: Vec<Arrival>)
    requires
        old(census).roomy(),
        old(holds).ball < u32::MAX,
        old(holds).paddle < u32::MAX,
    ensures
        ({
            let ball = ball_key && fires_at(old(holds).ball as nat, HOLD_DELAY as nat, HOLD_PERIOD as nat);
            let paddle = paddle_key && fires_at(old(holds).paddle as nat, HOLD_DELAY as nat, HOLD_PERIOD as nat);
            let mid = if ball { with_ball(*old(census)) } else { *old(census) };
            &&& *final(census) == if paddle { with_paddle(mid, thinner(mid)) } else { mid }
            &&& arrivals@ == (if ball { seq![Arrival::Ball { index: old(census).balls }] } else {
                Seq::<Arrival>::empty()
            }) + (if paddle {
                seq![Arrival::Paddle { side: thinner(mid), slot: mid.count_on(thinner(mid)) as u32 }]
            } else {
                Seq::<Arrival>::empty()
            })
        }),
        final(holds).ball == if ball_key { old(holds).ball + 1 } else { 0 },
        final(holds).paddle == if paddle_key { old(holds).paddle + 1 } else { 0 },
        balanced(*old(census)) ==> balanced(*final(census)),
        serves(arrivals@, old(census).balls as int, final(census).balls as int),
{
    let mut arrivals: Vec<Arrival> = Vec::new();
    assert(spawn_orders(arrivals@) =~= Seq::<u32>::empty());
    let ghost start = *census;
    if repeating(&mut holds.ball, ball_key) {
        let ghost before = arrivals@;
        arrivals.push(add_ball(census));
        proof {
            lemma_serves_ball(before, start.balls as int, start.balls as int);
        }
    }
    let ghost mid = *census;
    if repeating(&mut holds.paddle, paddle_key) {
        let side = thinner_side(census);
        let ghost before = arrivals@;
        let ghost slot = census.count_on(side) as u32;
        arrivals.push(add_paddle(census, side));
        proof {
            lemma_serves_paddle(before, start.balls as int, mid.balls as int, side, slot);
        }
        proof {
            if balanced(mid) {
                thinner_keeps_balance(mid);
            }
        }
    }
    arrivals
}

/// R clears the court and deals the opening position again, statistics and all.
pub fn restart(census: &mut Census, stats: &mut Stats) -> (arrivals: Vec<Arrival>)
    ensures
        *final(census) == opening(),
        *final(stats) == (Stats { ticks: 0, saves: 0, misses: 0 }),
        serves(arrivals@, 0, final(census).balls as int),
        arrivals@ == seq![
            Arrival::Ball { index: 0 },
            Arrival::Paddle { side: Side::Left, slot: 0 },
            Arrival::Paddle { side: Side::Right, slot: 0 },
        ],
{
    *census = Census { balls: 0, left: 0, right: 0 };
    *stats = Stats { ticks: 0, saves: 0, misses: 0 };
    open_court(census)
}

/// What one simulated tick of the schedule does to the census: a ball every [`BALL_EVERY`]
/// ticks, a paddle on the thinner wall every [`PADDLE_EVERY`].
pub open spec fn scheduled(census: Census, tick: u64) -> Census {
    let mid = if tick % BALL_EVERY == 0 { with_ball(census) } else { census };
    if tick % PADDLE_EVERY == 0 { with_paddle(mid, thinner(mid)) } else { mid }
}

/// One simulated tick of the schedule: the clock moves on, and population grows on it,
/// forever, with no involvement from anything that happens on the court.
pub fn schedule_tick(census: &mut Census, stats: &mut Stats) -> (arrivals: Vec<Arrival>)
    requires
        old(census).roomy(),
        old(stats).ticks < u64::MAX,
    ensures
        final(stats).ticks == old(stats).ticks + 1,
        final(stats).saves == old(stats).saves,
        final(stats).misses == old(stats).misses,
        *final(census) == scheduled(*old(census), final(stats).ticks),
        ({
            let tick = final(stats).ticks;
            let mid = if tick % BALL_EVERY == 0 { with_ball(*old(census)) } else { *old(census) };
            arrivals@ == (if tick % BALL_EVERY == 0 {
                seq![Arrival::Ball { index: old(census).balls }]
            } else {
                Seq::<Arrival>::empty()
            }) + (if tick % PADDLE_EVERY == 0 {
                seq![Arrival::Paddle { side: thinner(mid), slot: mid.count_on(thinner(mid)) as u32 }]
            } else {
                Seq::<Arrival>::empty()
            })
        }),
        balanced(*old(census)) ==> balanced(*final(census)),
        serves(arrivals@, old(census).balls as int, final(census).balls as int),
{
    let mut arrivals: Vec<Arrival> = Vec::new();
    assert(spawn_orders(arrivals@) =~= Seq::<u32>::empty());
    let ghost start = *census;
    stats.ticks = stats.ticks + 1;
    if stats.ticks % BALL_EVERY == 0 {
        let ghost before = arrivals@;
        arrivals.push(add_ball(census));
        proof {
            lemma_serves_ball(before, start.balls as int, start.balls as int);
        }
    }
    let ghost mid = *census;
    if stats.ticks % PADDLE_EVERY == 0 {
        let side = thinner_side(census);
        let ghost before = arrivals@;
        let ghost slot = census.count_on(side) as u32;
        arrivals.push(add_paddle(census, side));
        proof {
            lemma_serves_paddle(before, start.balls as int, mid.balls as int, side, slot);
        }
        proof {
            if balanced(mid) {
                thinner_keeps_balance(mid);
            }
        }
    }
    arrivals
}

/// The census after `ticks` simulated ticks of the schedule, starting at tick `from`.
pub open spec fn run_schedule(census: Census, from: nat, ticks: nat) -> Census
    decreases ticks,
{
    if ticks == 0 {
        census
    } else {
        scheduled(run_schedule(census, from, (ticks - 1) as nat), (from + ticks) as u64)
    }
}

/// The population grows on schedule and never stops: after `ticks` ticks from the opening
/// position there are exactly `START_BALLS + ticks / BALL_EVERY` balls and
/// `START_PADDLES + ticks / PADDLE_EVERY` paddles, spread over the walls evenly. It holds for as
/// long as the ball count fits in its `u32`.
pub proof fn population_grows_on_schedule(ticks: nat)
    requires
        ticks / (BALL_EVERY as nat) + 3 <= u32::MAX,
    ensures
        run_schedule(opening(), 0, ticks).balls == START_BALLS + ticks / (BALL_EVERY as nat),
        run_schedule(opening(), 0, ticks).left + run_schedule(opening(), 0, ticks).right
            == START_PADDLES + ticks / (PADDLE_EVERY as nat),
        balanced(run_schedule(opening(), 0, ticks)),
    decreases ticks,
{
    if ticks > 0 {
        let n = (ticks - 1) as nat;
        assert(ticks / 300 == n / 300 + if ticks % 300 == 0 { 1int } else { 0int });
        assert(ticks / 540 == n / 540 + if ticks % 540 == 0 { 1int } else { 0int });
        assert(ticks / 540 <= ticks / 300);
        assert(ticks < 0x1_0000_0000_0000_0000);
        population_grows_on_schedule(n);
        let before = run_schedule(opening(), 0, n);
        assert(before.balls <= 1 + n / 300);
        let mid = if (ticks as u64) % BALL_EVERY == 0 { with_ball(before) } else { before };
        thinner_keeps_balance(mid);
    }
}

/// Encode a court size for [`COURT_COMMAND`]: whole units, so it round-trips exactly through
/// a replay.
pub fn court_payload(width: i32, height: i32) -> (text: String)
    ensures
        text@ == size_text(width, height),
{
    size_payload(width, height)
}

/// Decode a [`court_payload`]. `None` for anything malformed or degenerate.
pub fn parse_court(payload: &str) -> (size: Option<(i32, i32)>)
    ensures
        size == size_from_text(payload@),
{
    parse_size(payload)
}

} // verus!
