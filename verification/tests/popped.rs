use simulacra::popped::{
    alarmed, face, shows, Eyes, Mouth, Role,
    cut_loose, launch, live, room_in_the_sky, pop_by_faller, pop_by_pointer, settle_escape, settle_pop, verdict,
    Blame, Census, Departures, Mood, Plight, Senses, Species, Tally, MAX_BALLOONS, MAX_BOUNCES,
};

fn calm() -> Senses {
    Senses {
        seated: true,
        timer_out: false,
        chute_due: false,
        on_ground: false,
        hard_hit: false,
        walked_off: false,
        lost: false,
    }
}

fn rider(chute: bool, graceful: bool) -> Plight {
    Plight {
        mood: Mood::Riding,
        bounces: 0,
        chute,
        graceful,
    }
}

#[test]
fn balloons_go_up_until_the_sky_is_full() {
    let mut census = Census::default();
    for _ in 0..MAX_BALLOONS {
        assert!(launch(&mut census, true, false).is_some());
    }
    assert_eq!(census.balloons, MAX_BALLOONS);
    assert_eq!(launch(&mut census, false, false), None);
    assert_eq!(census.balloons, MAX_BALLOONS);
    assert_eq!(census.animals, MAX_BALLOONS);
}

#[test]
fn a_basket_carries_one_two_or_three() {
    let mut census = Census::default();
    assert_eq!(launch(&mut census, true, true), Some(1));
    assert_eq!(launch(&mut census, false, true), Some(2));
    assert_eq!(launch(&mut census, false, false), Some(3));
    assert_eq!(census, Census { balloons: 3, animals: 6 });
}

#[test]
fn nobody_falls_until_they_have_had_a_moment() {
    let mut plight = rider(false, false);
    let mut tally = Tally::default();
    let mut census = Census { balloons: 0, animals: 1 };
    cut_loose(&mut plight);
    assert_eq!(plight.mood, Mood::Beat);
    let turn = live(&mut plight, &mut tally, &mut census, calm());
    assert_eq!(plight.mood, Mood::Beat, "still hanging in the air");
    assert!(!turn.dropped);
    let turn = live(
        &mut plight,
        &mut tally,
        &mut census,
        Senses { timer_out: true, ..calm() },
    );
    assert!(turn.dropped);
    assert_eq!(plight.mood, Mood::Falling);
    assert!(plight.mood.falls());
}

#[test]
fn everybody_lands_and_walks_it_off() {
    let mut plight = Plight { mood: Mood::Falling, bounces: 0, chute: false, graceful: false };
    let mut tally = Tally::default();
    let mut census = Census { balloons: 0, animals: 1 };
    let hit = Senses { on_ground: true, hard_hit: true, ..calm() };
    for bounce in 1..=MAX_BOUNCES {
        let turn = live(&mut plight, &mut tally, &mut census, hit);
        assert!(turn.bounced);
        assert_eq!(plight.bounces, bounce);
        assert_eq!(plight.mood, Mood::Falling);
    }
    let turn = live(&mut plight, &mut tally, &mut census, hit);
    assert!(turn.landed && !turn.bounced, "out of bounces, it stays down");
    assert_eq!(plight.mood, Mood::Dazed);
    assert!(plight.mood.grounded());
    assert_eq!(tally.landed, 1);
    assert_eq!(tally.graceful, 0);
    live(&mut plight, &mut tally, &mut census, Senses { timer_out: true, ..calm() });
    assert_eq!(plight.mood, Mood::Trudging);
    let turn = live(&mut plight, &mut tally, &mut census, Senses { walked_off: true, ..calm() });
    assert_eq!(turn.removals, 1);
    assert_eq!(census.animals, 0);
    assert_eq!(tally.landed, 1, "walking off is not a second landing");
}

#[test]
fn the_graceful_land_on_their_feet() {
    let mut plight = Plight { mood: Mood::Falling, bounces: 0, chute: false, graceful: true };
    let mut tally = Tally::default();
    let mut census = Census { balloons: 0, animals: 1 };
    let turn = live(&mut plight, &mut tally, &mut census, Senses { on_ground: true, ..calm() });
    assert!(turn.landed);
    assert_eq!(plight.mood, Mood::Bowing);
    assert_eq!((tally.landed, tally.graceful), (1, 1));
}

#[test]
fn a_parachute_is_a_gentle_way_down() {
    let mut plight = Plight { mood: Mood::Falling, bounces: 0, chute: true, graceful: false };
    let mut tally = Tally::default();
    let mut census = Census { balloons: 0, animals: 1 };
    let turn = live(&mut plight, &mut tally, &mut census, Senses { chute_due: true, ..calm() });
    assert!(turn.chute_opened);
    assert_eq!(plight.mood, Mood::Chuting);
    assert!(!plight.chute, "a parachute opens once");
    assert_eq!(tally.chuted, 1);
    let turn = live(&mut plight, &mut tally, &mut census, Senses { on_ground: true, ..calm() });
    assert!(turn.touched_down && !turn.landed);
    assert_eq!(plight.mood, Mood::Trudging);
    assert_eq!(tally.landed, 1);
}

#[test]
fn a_lost_animal_is_taken_out_once() {
    let mut plight = Plight { mood: Mood::Trudging, bounces: 0, chute: false, graceful: false };
    let mut tally = Tally::default();
    let mut census = Census { balloons: 0, animals: 3 };
    let turn = live(
        &mut plight,
        &mut tally,
        &mut census,
        Senses { walked_off: true, lost: true, ..calm() },
    );
    assert_eq!(turn.removals, 2, "once for each reason");
    assert_eq!(census.animals, 1);
    let mut seated = rider(false, false);
    let turn = live(
        &mut seated,
        &mut tally,
        &mut census,
        Senses { seated: false, lost: true, ..calm() },
    );
    assert_eq!(turn.removals, 0, "a rider whose basket has gone waits for its own turn");
}

#[test]
fn a_falling_animal_takes_out_what_it_hits() {
    let mut departures = Departures::default();
    pop_by_pointer(&mut departures, 7);
    pop_by_faller(&mut departures, 7);
    pop_by_faller(&mut departures, 9);
    pop_by_faller(&mut departures, 9);
    assert_eq!(departures.popped, vec![(7, Blame::Pointer), (9, Blame::Falling)]);
    assert!(departures.escaped.is_empty());
}

#[test]
fn everybody_who_goes_up_is_accounted_for() {
    let mut tally = Tally::default();
    let mut census = Census { balloons: 3, animals: 5 };
    settle_pop(&mut tally, &mut census, Blame::Pointer);
    settle_pop(&mut tally, &mut census, Blame::Falling);
    settle_escape(&mut tally, &mut census, 2);
    assert_eq!(census, Census { balloons: 0, animals: 3 });
    assert_eq!((tally.popped, tally.chained, tally.escaped), (1, 1, 1));
    settle_escape(&mut tally, &mut census, 9);
    assert_eq!(census, Census { balloons: 0, animals: 0 }, "counts never go below zero");
}

#[test]
fn the_scoreboard_keeps_a_note() {
    let line = |popped: u32| verdict(&Tally { popped, ..Tally::default() });
    assert_eq!(line(0), "a lovely day for a balloon ride");
    assert_eq!(line(1), "oh");
    assert_eq!(line(4), "they are fine. they are basically fine.");
    assert_eq!(line(5), "the animals have noticed a pattern");
    assert_eq!(line(19), "you are on a list");
    assert_eq!(line(39), "the balloon association has been informed");
    assert_eq!(line(40), "nobody was hurt. all of them are furious.");
}

#[test]
fn there_are_five_kinds_of_passenger() {
    assert_eq!(Species::ALL.len(), 5);
    assert_eq!(Species::ALL[0], Species::Bear);
    assert_eq!(Species::ALL[4], Species::Frog);
}

#[test]
fn a_beat_is_still_until_it_runs_out() {
    let mut plight = Plight { mood: Mood::Beat, bounces: 0, chute: true, graceful: true };
    let mut tally = Tally::default();
    let mut census = Census { balloons: 0, animals: 1 };
    let hanging = Senses { on_ground: true, hard_hit: true, chute_due: true, ..calm() };
    let turn = live(&mut plight, &mut tally, &mut census, hanging);
    assert_eq!(plight.mood, Mood::Beat, "the ground and the parachute wait for the fall");
    assert!(!turn.dropped && !turn.landed && !turn.bounced && !turn.chute_opened);
    assert_eq!(tally, Tally::default());
    let turn = live(&mut plight, &mut tally, &mut census, Senses { timer_out: true, ..hanging });
    assert!(turn.dropped);
    assert!(!turn.landed && !turn.bounced && !turn.chute_opened && !turn.touched_down);
    assert_eq!(plight, Plight { mood: Mood::Falling, bounces: 0, chute: true, graceful: true });
}

#[test]
fn the_drawing_tells_the_mood() {
    assert!(shows(Role::Mark, Mood::Beat));
    assert!(!shows(Role::Mark, Mood::Falling));
    assert!(!shows(Role::Shadow, Mood::Riding));
    assert!(shows(Role::Shadow, Mood::Trudging));
    assert!(shows(Role::Star(2), Mood::Dazed));
    assert!(!shows(Role::Star(0), Mood::Bowing));
    assert!(shows(Role::Chute, Mood::Chuting));
    assert!(!shows(Role::Chute, Mood::Falling));
    assert!(shows(Role::Head, Mood::Riding));
    assert_eq!(face(Mood::Riding), (Eyes::Happy, Mouth::Smile));
    assert_eq!(face(Mood::Falling), (Eyes::Shock, Mouth::Scream));
    assert_eq!(face(Mood::Dazed), (Eyes::Dizzy, Mouth::Scream));
    assert_eq!(face(Mood::Trudging), (Eyes::Open, Mouth::Smile));
    assert!(alarmed(Mood::Beat) && alarmed(Mood::Falling) && !alarmed(Mood::Chuting));
}

#[test]
fn the_launcher_asks_whether_there_is_room() {
    let mut census = Census { balloons: 0, animals: 0 };
    assert!(room_in_the_sky(&census));
    census.balloons = MAX_BALLOONS - 1;
    assert!(room_in_the_sky(&census));
    census.balloons = MAX_BALLOONS;
    assert!(!room_in_the_sky(&census));
    assert_eq!(launch(&mut census, true, false), None);
    assert_eq!(census.balloons, MAX_BALLOONS);
}
