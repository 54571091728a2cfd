use simulacra::parrish::{ALTITUDE, COVERAGE, DECKS, DISTANCE, TILE};

#[test]
fn the_decks_stack() {
    for step in 1..DECKS.len() {
        let (near, far) = (DECKS[step - 1], DECKS[step]);
        assert!(far[ALTITUDE] > near[ALTITUDE], "deck {step} is not higher than the last");
        assert!(
            far[DISTANCE] > near[DISTANCE],
            "deck {step} is not further off than the last"
        );
        assert!(
            far[COVERAGE] >= near[COVERAGE],
            "deck {step} is not thinner than the last"
        );
    }
}

#[test]
fn the_low_deck_carries_the_big_shapes() {
    assert_eq!(DECKS[0], [1700, 12_000, 800, 0]);
    assert!(DECKS.windows(2).all(|pair| pair[1][TILE] > pair[0][TILE]));
}
