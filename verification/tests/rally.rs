use simulacra::rally::{
    add_ball, add_paddle, court_payload, open_court, parse_court, population_controls, repeating,
    restart, schedule_tick, thinner_side, Arrival, Census, Holds, Side, Stats, BALL_EVERY,
    COURT_COMMAND, HOLD_DELAY, HOLD_PERIOD, PADDLE_EVERY, START_BALLS, START_PADDLES,
};

fn court() -> (Census, Stats, Vec<Arrival>) {
    let mut census = Census::default();
    let arrivals = open_court(&mut census);
    (census, Stats::default(), arrivals)
}

fn run(census: &mut Census, stats: &mut Stats, ticks: u32) -> Vec<Arrival> {
    let mut all = Vec::new();
    for _ in 0..ticks {
        all.extend(schedule_tick(census, stats));
    }
    all
}

#[test]
fn it_opens_as_pong() {
    let (census, _, _) = court();
    assert_eq!(census.balls, START_BALLS, "one ball to start");
    assert_eq!(census.paddles(), START_PADDLES, "two paddles to start");
    assert_eq!(
        (census.left, census.right),
        (1, 1),
        "one paddle on each wall"
    );
}

#[test]
fn the_opening_deals_a_ball_then_a_paddle_per_wall() {
    let (_, _, arrivals) = court();
    assert_eq!(
        arrivals,
        vec![
            Arrival::Ball { index: 0 },
            Arrival::Paddle { side: Side::Left, slot: 0 },
            Arrival::Paddle { side: Side::Right, slot: 0 },
        ]
    );
}

#[test]
fn the_population_grows_on_schedule() {
    let (mut census, mut stats, _) = court();
    run(&mut census, &mut stats, BALL_EVERY as u32);
    assert_eq!(census.balls, START_BALLS + 1, "a ball joins every {BALL_EVERY} ticks");

    let (mut census, mut stats, _) = court();
    run(&mut census, &mut stats, PADDLE_EVERY as u32);
    assert_eq!(
        census.paddles(),
        START_PADDLES + 1,
        "a paddle joins every {PADDLE_EVERY} ticks"
    );
    assert_eq!(
        census.left.abs_diff(census.right),
        1,
        "paddles alternate walls, so the sides never drift apart"
    );
}

#[test]
fn the_population_never_stops_growing() {
    let (mut census, mut stats, _) = court();
    run(&mut census, &mut stats, 36_000);
    assert_eq!(
        census.balls,
        START_BALLS + (36_000 / BALL_EVERY) as u32,
        "balls should keep arriving on schedule with no ceiling"
    );
    assert_eq!(
        census.paddles(),
        START_PADDLES + (36_000 / PADDLE_EVERY) as u32,
        "paddles should keep arriving on schedule with no ceiling"
    );
    assert!(census.left.abs_diff(census.right) <= 1);
    assert_eq!(stats.ticks, 36_000);
}

#[test]
fn one_tick_short_of_the_schedule_adds_nothing() {
    let (mut census, mut stats, _) = court();
    let arrivals = run(&mut census, &mut stats, BALL_EVERY as u32 - 1);
    assert!(arrivals.is_empty());
    assert_eq!(census.balls, START_BALLS);
    let arrivals = schedule_tick(&mut census, &mut stats);
    assert_eq!(arrivals, vec![Arrival::Ball { index: 1 }]);
}

#[test]
fn holding_a_spawn_key_keeps_them_coming() {
    let (mut census, _, _) = court();
    let start = census;
    let mut holds = Holds::default();
    population_controls(&mut census, &mut holds, true, false);
    population_controls(&mut census, &mut holds, false, false);
    assert_eq!(census.balls, start.balls + 1, "a tap should add exactly one");

    let (mut census, _, _) = court();
    let start = census;
    let mut holds = Holds::default();
    let held = 120;
    for _ in 0..held {
        population_controls(&mut census, &mut holds, true, false);
    }
    population_controls(&mut census, &mut holds, false, false);
    let expected = 1 + (held - HOLD_DELAY) / HOLD_PERIOD;
    let added = census.balls - start.balls;
    assert!(
        added.abs_diff(expected) <= 1,
        "holding for {held} ticks should add about {expected} balls, added {added}"
    );

    let (mut census, _, _) = court();
    let start = census;
    let mut holds = Holds::default();
    for _ in 0..held {
        population_controls(&mut census, &mut holds, false, true);
    }
    let added = census.paddles() - start.paddles();
    assert!(
        added.abs_diff(expected) <= 1,
        "holding P should pour in paddles too, added {added}"
    );
}

#[test]
fn a_held_key_repeats_on_the_beat() {
    let mut held = 0;
    let fired: Vec<u32> = (0..30)
        .filter(|_| repeating(&mut held, true))
        .collect();
    assert_eq!(fired, vec![0, 18, 22, 26]);
    assert!(!repeating(&mut held, false));
    assert_eq!(held, 0);
}

#[test]
fn the_controls_add_to_the_court() {
    let (mut census, mut stats, _) = court();
    let before = census;
    let mut holds = Holds::default();
    population_controls(&mut census, &mut holds, true, true);
    let after = census;
    assert_eq!(after.balls, before.balls + 1, "b adds a ball");
    assert_eq!(after.paddles(), before.paddles() + 1, "p adds a paddle");

    run(&mut census, &mut stats, 1_200);
    restart(&mut census, &mut stats);
    assert_eq!(census.balls, START_BALLS, "r starts over");
    assert_eq!(census.paddles(), START_PADDLES, "r starts over");
    assert_eq!((stats.saves, stats.misses), (0, 0), "r resets the counters");
    assert_eq!(stats.ticks, 0, "r restarts the clock");
}

#[test]
fn every_ball_has_its_own_place_in_the_spectrum() {
    let (mut census, mut stats, opening) = court();
    let mut arrivals = opening;
    arrivals.extend(run(&mut census, &mut stats, 4_000));
    let mut holds = Holds::default();
    arrivals.extend(population_controls(&mut census, &mut holds, true, false));
    let mut indices: Vec<u32> = arrivals
        .iter()
        .filter_map(|arrival| match arrival {
            Arrival::Ball { index } => Some(*index),
            _ => None,
        })
        .collect();
    indices.sort_unstable();
    assert_eq!(
        indices,
        (0..census.balls).collect::<Vec<_>>(),
        "ball indices should be a gapless 0..{}",
        census.balls
    );
}

#[test]
fn a_paddle_joins_the_thinner_wall() {
    let mut census = Census { balls: 0, left: 3, right: 1 };
    assert_eq!(thinner_side(&census), Side::Right);
    let arrival = add_paddle(&mut census, Side::Right);
    assert_eq!(arrival, Arrival::Paddle { side: Side::Right, slot: 1 });
    let mut census = Census { balls: 0, left: 2, right: 2 };
    assert_eq!(thinner_side(&census), Side::Left);
    assert_eq!(add_ball(&mut census), Arrival::Ball { index: 0 });
    assert_eq!(census.on(Side::Left), 2);
}

#[test]
fn a_malformed_resize_is_ignored() {
    assert_eq!(parse_court("1400 560"), Some((1400, 560)));
    for payload in ["", "wide", "1400", "1400 x", "0 0", "-8 -8"] {
        assert_eq!(
            parse_court(payload),
            None,
            "payload {payload:?} should be rejected"
        );
    }
}

#[test]
fn a_court_size_round_trips() {
    assert_eq!(COURT_COMMAND, "court");
    assert_eq!(court_payload(1400, 560), "1400 560");
    assert_eq!(parse_court(&court_payload(1400, 560)), Some((1400, 560)));
    assert_eq!(parse_court(&court_payload(-3, 560)), None);
    assert_eq!(parse_court("12 \t 7  "), Some((12, 7)));
    assert_eq!(parse_court(" 12 7"), None, "split at the first space, which leaves nothing before it");
}
