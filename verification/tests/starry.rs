use simulacra::starry::{
    hang_star, repeating, take_down_star, Census, Dice, Layer, HOLD_BATCH, LAYERS, MAX_STARS,
    MAX_STROKES, START_STROKES,
};

const ALL: [Layer; 9] = [
    Layer::Sky,
    Layer::Halo,
    Layer::Star,
    Layer::Moon,
    Layer::Hill,
    Layer::Ground,
    Layer::Village,
    Layer::Window,
    Layer::Cypress,
];

#[test]
fn only_the_sky_is_airborne() {
    let up: Vec<bool> = ALL.iter().map(|layer| layer.airborne()).collect();
    assert_eq!(up, vec![true, true, true, true, false, false, false, false, false]);
}

#[test]
fn every_layer_has_a_slot_of_its_own() {
    let slots: Vec<usize> = ALL.iter().map(|layer| layer.slot()).collect();
    assert_eq!(slots, (0..LAYERS).collect::<Vec<_>>());
}

#[test]
fn more_paint_and_less() {
    let mut census = Census(0);
    assert_eq!(census.lay(START_STROKES), START_STROKES);
    assert_eq!(census.lay(HOLD_BATCH), HOLD_BATCH);
    assert_eq!(census, Census(START_STROKES + HOLD_BATCH));
    assert_eq!(census.lift(5_000), HOLD_BATCH);
    assert_eq!(census, Census(START_STROKES));
    assert_eq!(census.lift(7), 7, "only what is on the canvas can be lifted");
    let mut empty = Census(3);
    assert_eq!(empty.lift(HOLD_BATCH), HOLD_BATCH);
    assert_eq!(empty, Census(0), "the count never goes below zero");
}

#[test]
fn the_canvas_only_holds_so_much_paint() {
    let mut census = Census(MAX_STROKES - 50);
    assert_eq!(census.lay(HOLD_BATCH), 50);
    assert_eq!(census, Census(MAX_STROKES));
    assert_eq!(census.lay(HOLD_BATCH), 0);
    assert_eq!(census, Census(MAX_STROKES));
}

#[test]
fn a_paint_key_repeats_after_a_moment() {
    let mut held = 0;
    let fired: Vec<u32> = (0..16).filter(|_| repeating(&mut held, true)).collect();
    assert_eq!(fired, vec![0, 10, 12, 14]);
    assert!(!repeating(&mut held, false));
    assert_eq!(held, 0);
}

#[test]
fn the_sky_only_holds_so_many_stars() {
    let mut stars: Vec<u32> = Vec::new();
    for star in 0..MAX_STARS as u32 {
        assert!(hang_star(&mut stars, star));
    }
    assert!(!hang_star(&mut stars, 99));
    assert_eq!(stars.len(), MAX_STARS);
    assert_eq!(take_down_star(&mut stars), Some(MAX_STARS as u32 - 1));
    assert!(hang_star(&mut stars, 99));
    assert_eq!(stars.last(), Some(&99));
    let mut none: Vec<u32> = Vec::new();
    assert_eq!(take_down_star(&mut none), None);
}

#[test]
fn the_dice_are_xorshift() {
    let mut dice = Dice(1);
    let first = dice.roll();
    assert_eq!(dice.0, 270_369);
    assert_eq!(first, 270_369 >> 8);
    let mut state: u32 = 0x1234_5678;
    let mut dice = Dice(state);
    for _ in 0..1000 {
        state ^= state << 13;
        state ^= state >> 17;
        state ^= state << 5;
        let drawn = dice.roll();
        assert_eq!(dice.0, state);
        assert!(drawn < 1 << 24);
        assert_ne!(state, 0);
    }
    let mut stuck = Dice(0);
    assert_eq!(stuck.roll(), 0);
}
