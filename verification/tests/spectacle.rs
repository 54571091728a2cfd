use simulacra::spectacle::{
    add_shell, add_spark, choose_colors, field_payload, finale_forward, parse_field, shell_out,
    smoke_puffs, spark_out, voices_of, Act, Break, Census, Voice, FIELD_COMMAND, GOLD,
    MAX_SHELLS, MAX_SPARKS, WHITE,
};

#[test]
fn the_programme_is_a_round() {
    let mut act = Act::Overture;
    let mut seen = Vec::new();
    for _ in 0..5 {
        seen.push(act);
        act = act.next();
    }
    assert_eq!(act, Act::Overture, "the round should close");
    assert_eq!(seen.len(), 5, "five passages, each visited once");
    for one in seen {
        assert!(!one.name().is_empty());
        let (fewest, most) = one.salvo();
        assert!(fewest >= 1 && fewest <= most, "{} has a bad salvo", one.name());
        assert!(!one.repertoire().is_empty(), "{} has nothing to fire", one.name());
        assert!(one.duration() > 0);
    }
}

#[test]
fn the_finale_fires_more_at_once_than_the_quiet_passages() {
    assert!(Act::Finale.salvo().1 > Act::Overture.salvo().1);
    assert!(Act::Finale.salvo().0 > Act::Hush.salvo().0);
}

#[test]
fn the_passages_have_their_names() {
    let names: Vec<&str> = [Act::Overture, Act::Rise, Act::Cascade, Act::Hush, Act::Finale]
        .iter()
        .map(|act| act.name())
        .collect();
    assert_eq!(names, vec!["overture", "rise", "cascade", "hush", "finale"]);
    assert_eq!(Act::Rise.duration(), 40);
    assert_eq!(Act::Hush.repertoire().len(), 5);
}

#[test]
fn f_brings_the_finale_forward() {
    assert!(finale_forward(Act::Overture, true));
    assert!(finale_forward(Act::Hush, true));
    assert!(!finale_forward(Act::Finale, true), "already there");
    assert!(!finale_forward(Act::Rise, false));
}

#[test]
fn two_colour_shells_get_two_colours() {
    assert_eq!(choose_colors(Break::Peony, 3, false, 3, 0), (3, 4));
    assert_eq!(choose_colors(Break::Peony, 7, false, 7, 2), (7, 2));
    assert_eq!(choose_colors(Break::Ring, 1, false, 5, 1), (1, 5));
    assert_eq!(choose_colors(Break::Palm, 6, true, 2, 0), (6, 6));
    assert_eq!(choose_colors(Break::Willow, 1, false, 5, 0), (GOLD, GOLD));
    assert_eq!(choose_colors(Break::Salute, 1, false, 5, 0), (WHITE, WHITE));
}

#[test]
fn the_finale_stays_inside_its_budget() {
    let mut census = Census { sparks: MAX_SPARKS - 1, shells: MAX_SHELLS - 1 };
    assert!(add_spark(&mut census));
    assert!(!add_spark(&mut census));
    assert!(add_shell(&mut census));
    assert!(!add_shell(&mut census));
    assert_eq!(census, Census { sparks: MAX_SPARKS, shells: MAX_SHELLS });
    spark_out(&mut census);
    shell_out(&mut census);
    assert_eq!(census, Census { sparks: MAX_SPARKS - 1, shells: MAX_SHELLS - 1 });
    let mut empty = Census::default();
    spark_out(&mut empty);
    shell_out(&mut empty);
    assert_eq!(empty, Census::default());
}

#[test]
fn a_salute_cracks_and_a_crackle_rattles() {
    assert_eq!(voices_of(Break::Salute, false), vec![Voice::Crack, Voice::Crackle]);
    assert_eq!(voices_of(Break::Peony, false), vec![Voice::Boom]);
    assert_eq!(voices_of(Break::Peony, true), vec![Voice::Boom, Voice::Crackle]);
    assert_eq!(voices_of(Break::Strobe, false), vec![Voice::Boom, Voice::Crackle]);
    assert_eq!(
        voices_of(Break::Crossette, false),
        vec![Voice::Crackle, Voice::Boom]
    );
    assert!(voices_of(Break::Mine, true).is_empty());
    assert_eq!(smoke_puffs(Break::Salute), 1);
    assert_eq!(smoke_puffs(Break::Peony), 3);
}

#[test]
fn a_malformed_field_resize_is_ignored() {
    assert_eq!(FIELD_COMMAND, "field");
    assert_eq!(parse_field("1600 576"), Some((1600, 576)));
    for payload in ["", "wide", "1600", "1600 x", "0 0", "-8 -8"] {
        assert_eq!(
            parse_field(payload),
            None,
            "payload {payload:?} should be rejected"
        );
    }
    assert_eq!(parse_field(&field_payload(1600, 576)), Some((1600, 576)));
}
