use simulacra::pond::{
    next_look, LOOKS, LOOK_NAMES,
    field_payload, parse_field, shore_distances, stride_for, Water, FIELD_COMMAND, MAX_CELLS,
    ROW_ALIGN,
};

#[test]
fn determinism_a_malformed_resize_is_ignored() {
    assert_eq!(parse_field("1000 900"), Some((1000, 900)));
    for payload in ["", "wide", "1000", "1000 x", "0 0", "-8 -8"] {
        assert_eq!(
            parse_field(payload),
            None,
            "payload {payload:?} should be rejected"
        );
    }
}

#[test]
fn a_field_size_round_trips() {
    assert_eq!(FIELD_COMMAND, "field");
    assert_eq!(field_payload(1280, 800), "1280 800");
    assert_eq!(parse_field(&field_payload(1280, 800)), Some((1280, 800)));
    assert_eq!(parse_field("1280 \t800"), Some((1280, 800)));
    assert_eq!(parse_field(" 1280 800"), None);
    assert_eq!(parse_field("1280  800"), Some((1280, 800)));
}

#[test]
fn the_stride_is_a_whole_number_of_blocks() {
    assert_eq!(stride_for(640), 640);
    assert_eq!(stride_for(500), 512);
    assert_eq!(stride_for(1), 64);
    assert_eq!(stride_for(0), 0);
    assert_eq!(stride_for(u32::MAX - 63), u32::MAX - 63);
    for across in [3, 63, 64, 65, 1000, 1919] {
        let stride = stride_for(across);
        assert_eq!(stride % ROW_ALIGN, 0);
        assert!(stride >= across && stride < across + ROW_ALIGN);
    }
}

#[test]
fn a_row_is_stored_at_its_stride() {
    let water = Water::new(500, 350);
    assert_eq!(water.stride, 512);
    assert_eq!(water.area(), 500 * 350);
    assert_eq!(water.cell(0, 0), Some(0));
    assert_eq!(water.cell(499, 0), Some(499));
    assert_eq!(water.cell(0, 1), Some(512));
    assert_eq!(water.cell(499, 349), Some(349 * 512 + 499));
    assert_eq!(water.cell(500, 0), None, "the slack is not part of the field");
    assert_eq!(water.cell(-1, 3), None);
    assert_eq!(water.cell(3, 350), None);
}

#[test]
fn a_footprint_stays_inside_the_shore() {
    let water = Water::new(640, 400);
    assert_eq!(water.footprint_box(100, 50, 8), (92, 108, 42, 58));
    assert_eq!(water.footprint_box(0, 0, 8), (1, 8, 1, 8));
    assert_eq!(water.footprint_box(639, 399, 3), (636, 638, 396, 398));
    let (x0, x1, y0, y1) = water.footprint_box(-50, 900, 3);
    assert!(x1 < x0 || y1 < y0, "a press far off the water touches nothing");
}

#[test]
fn the_shore_is_measured_from_the_nearer_edge() {
    assert_eq!(shore_distances(5), vec![0, 1, 2, 1, 0]);
    assert_eq!(shore_distances(4), vec![0, 1, 1, 0]);
    assert!(shore_distances(0).is_empty());
}

#[test]
fn every_palette_climbs_from_dark_to_light() {
    for (look, name) in LOOKS.iter().zip(LOOK_NAMES.iter()) {
        let stops: Vec<[f32; 3]> = look
            .iter()
            .map(|stop| stop.map(|channel| channel as f32 / 100.0))
            .collect();
        let brightness = |rgb: &[f32; 3]| 0.2126 * rgb[0] + 0.7152 * rgb[1] + 0.0722 * rgb[2];
        for pair in stops.windows(2) {
            assert!(
                brightness(&pair[1]) > brightness(&pair[0]),
                "{}: the stops should get brighter as they go",
                name
            );
        }
        assert!(brightness(&stops[0]) < 0.12, "{} starts too bright", name);
        assert!(brightness(&stops[4]) > 0.6, "{} ends too dark", name);
    }
}

#[test]
fn c_walks_the_palettes_round() {
    let mut look = 0;
    let mut seen = Vec::new();
    for _ in 0..LOOKS.len() {
        seen.push(LOOK_NAMES[look]);
        look = next_look(look);
    }
    assert_eq!(look, 0);
    assert_eq!(seen, vec!["dusk", "lagoon", "ember", "moon", "meadow", "aurora"]);
    assert_eq!(LOOKS[0][0], [5, 4, 16]);
    assert_eq!(LOOKS[5][4], [88, 78, 96]);
}

#[test]
fn a_pond_at_the_cell_cap_is_laid_out_whole() {
    let water = Water::new(1100, 1000);
    assert_eq!(water.area(), MAX_CELLS as u64);
    assert_eq!(water.stride, 1152);
    assert_eq!(water.cell(1099, 999), Some(999 * 1152 + 1099));
    let narrow = Water::new(3, MAX_CELLS / 3);
    assert_eq!(narrow.stride, ROW_ALIGN);
    assert!(narrow.area() <= MAX_CELLS as u64);
}
