use simulacra::thunderhead::{
    blit, grouped, lay_backdrop, parse_window, shade, shade_column, window_payload, Anvil,
    Backdrop, Field, Forge, Job, Sky, CLOUD_FIRST, CLOUD_STRIDE, DEFAULT_WINDOW, DEPTHS,
    DRIFTERS, GROUND_FIRST, INK, LOCAL_INK, MATERIALS, RESIZE_COMMAND, SHADOW_FIRST, STONE,
    TIER_COUNT,
};

fn field(width: u32, height: u32, material: u8) -> Field {
    Field {
        width,
        height,
        cells: vec![material; (width * height) as usize],
    }
}

fn anvil(width: u32, height: u32, cells: Vec<u8>) -> Anvil {
    Anvil {
        width,
        height,
        cells,
        base: height - 1,
        hem: vec![0; width as usize],
    }
}

/// Run a forge through its shading with `bands` as what the density came to, and on to the end.
fn build(mut forge: Forge, bands: &[u8]) -> (Forge, Vec<Job>) {
    let width = forge.width as usize;
    let mut jobs = Vec::new();
    loop {
        let job = forge.advance();
        jobs.push(job);
        match job {
            Job::Shade(row) => {
                let start = row as usize * width;
                forge.set_bands(row, &bands[start..start + width].to_vec());
            }
            Job::Hem(column) => {
                let covered = forge.hem_coverage(column, 0, forge.height);
                forge.set_hem(column, covered as u8);
            }
            Job::Finished => break,
            _ => {}
        }
    }
    (forge, jobs)
}

#[test]
fn the_materials_fit_in_a_byte() {
    assert_eq!(MATERIALS, CLOUD_FIRST as usize + TIER_COUNT * CLOUD_STRIDE as usize);
    assert_eq!(MATERIALS, 66);
    assert_eq!((GROUND_FIRST, SHADOW_FIRST, STONE, CLOUD_FIRST), (18, 24, 32, 33));
    assert_eq!(DEPTHS.len(), DRIFTERS);
    assert!(DEPTHS.windows(2).all(|pair| pair[0] <= pair[1]));
}

#[test]
fn a_shadow_darkens_only_sand() {
    assert_eq!(shade(GROUND_FIRST), SHADOW_FIRST);
    assert_eq!(shade(GROUND_FIRST + 5), SHADOW_FIRST + 5);
    assert_eq!(shade(SHADOW_FIRST), SHADOW_FIRST, "shade on shade is one shade");
    assert_eq!(shade(INK), INK);
    assert_eq!(shade(STONE), STONE);
    assert_eq!(shade(1), 1, "the sky has no shadow");
}

#[test]
fn a_shadow_falls_on_one_column() {
    let mut f = field(3, 4, GROUND_FIRST + 2);
    f.cells[1] = INK;
    shade_column(&mut f, 1, 0, 3);
    let g = GROUND_FIRST + 2;
    let s = SHADOW_FIRST + 2;
    assert_eq!(f.cells, vec![g, INK, g, g, s, g, g, s, g, g, g, g]);
}

#[test]
fn the_backdrop_is_laid_only_when_it_fits() {
    let backdrop = Backdrop {
        width: 2,
        height: 2,
        horizon: 1,
        cells: vec![1, 2, 3, 4],
    };
    let mut f = field(2, 2, 9);
    assert!(lay_backdrop(&mut f, &backdrop));
    assert_eq!(f.cells, vec![1, 2, 3, 4]);
    let mut wrong = field(3, 2, 9);
    assert!(!lay_backdrop(&mut wrong, &backdrop));
    assert_eq!(wrong.cells, vec![9; 6]);
}

#[test]
fn a_cloud_is_blitted_in_its_tier_and_clipped() {
    let mut f = field(4, 3, 5);
    let cloud = anvil(2, 2, vec![1, 0, LOCAL_INK, 2]);
    blit(&mut f, &cloud, 1, 1, 1);
    let base = CLOUD_FIRST + CLOUD_STRIDE;
    assert_eq!(
        f.cells,
        vec![5, 5, 5, 5, 5, base, 5, 5, 5, base + LOCAL_INK - 1, base + 1, 5]
    );
    let mut f = field(4, 3, 5);
    blit(&mut f, &cloud, -1, -1, 0);
    assert_eq!(f.cells, vec![CLOUD_FIRST + 1, 5, 5, 5, 5, 5, 5, 5, 5, 5, 5, 5]);
    let mut f = field(4, 3, 5);
    blit(&mut f, &cloud, 10, 10, 2);
    assert_eq!(f.cells, vec![5; 12], "off the field, nothing is drawn");
}

#[test]
fn a_forge_hands_out_every_job_once_in_order() {
    let forge = Forge::start(3, 1, (2, 5), 2, 1);
    assert_eq!((forge.width, forge.height), (8, 8), "never smaller than eight texels");
    assert!(!forge.done());
    let (forge, jobs) = build(forge, &[0; 64]);
    assert!(forge.done());
    assert_eq!(jobs.len(), 2 + 8 + 8 + 8 + 1);
    assert_eq!(jobs[0], Job::Stamp(0));
    assert_eq!(jobs[1], Job::Stamp(1));
    assert_eq!(jobs[2], Job::Shade(0));
    assert_eq!(jobs[9], Job::Shade(7));
    assert_eq!(jobs[10], Job::Ink(0));
    assert_eq!(jobs[18], Job::Hem(0));
    assert_eq!(jobs[25], Job::Hem(7));
    assert_eq!(jobs[26], Job::Finished);
    let mut forge = forge;
    assert_eq!(forge.advance(), Job::Finished, "a finished forge stays finished");
    let cloud = forge.take(7);
    assert_eq!((cloud.width, cloud.height, cloud.base), (8, 8, 7));
    assert_eq!(cloud.cells, vec![0; 64]);
}

#[test]
fn a_cloud_is_inked_around_its_edge() {
    let mut bands = vec![0u8; 64];
    for y in 2..6 {
        for x in 2..6 {
            bands[y * 8 + x] = 3;
        }
    }
    let (forge, _) = build(Forge::start(0, 0, (8, 8), 1, 1), &bands);
    let cloud = forge.take(5);
    for y in 0..8 {
        for x in 0..8 {
            let expected = if !(2..6).contains(&y) || !(2..6).contains(&x) {
                0
            } else if y == 2 || y == 5 || x == 2 || x == 5 {
                LOCAL_INK
            } else {
                3
            };
            assert_eq!(cloud.cells[y * 8 + x], expected, "at ({x}, {y})");
        }
    }
    assert_eq!(cloud.hem, vec![0, 0, 4, 4, 4, 4, 0, 0]);
}

#[test]
fn every_third_band_is_drawn_as_a_contour() {
    let mut bands = vec![2u8; 64];
    for y in 0..8 {
        for x in 4..8 {
            bands[y * 8 + x] = 3;
        }
    }
    let (forge, _) = build(Forge::start(0, 0, (8, 8), 1, 1), &bands);
    let cells = forge.take(0).cells;
    assert_eq!(cells[3 * 8 + 3], LOCAL_INK, "band 2 against band 3 is a contour");
    assert_eq!(cells[3 * 8 + 2], 2);
    assert_eq!(cells[3 * 8 + 4], 3);
    assert_eq!(cells[0], LOCAL_INK, "the edge of the bitmap is open sky");
}

#[test]
fn a_thick_line_reaches_further_in() {
    let bands = vec![1u8; 64];
    let (forge, _) = build(Forge::start(0, 0, (8, 8), 1, 2), &bands);
    let cells = forge.take(0).cells;
    assert_eq!(cells[8 + 1], LOCAL_INK);
    assert_eq!(cells[2 * 8 + 2], 1);
    assert_eq!(cells[2 * 8 + 1], LOCAL_INK);
}

#[test]
fn the_sky_counts_its_texels() {
    let mut sky = Sky::new(42);
    sky.sizes = vec![(4, 2), (8, 8), (16, 9)];
    sky.hang(0, anvil(4, 2, vec![0; 8]));
    sky.hang(2, anvil(16, 9, vec![0; 144]));
    assert_eq!(sky.texels(), 8 + 144);
    assert_eq!(sky.grown, 2);
    assert_eq!(sky.seed, 42);
}

#[test]
fn a_drifter_waits_only_once() {
    let mut sky = Sky::new(1);
    sky.sizes = vec![(4, 2), (8, 8), (16, 9)];
    for &tier in &DEPTHS {
        sky.hang(tier, anvil(1, 1, vec![0]));
    }
    sky.wait_for(4);
    sky.wait_for(2);
    sky.wait_for(4);
    assert_eq!(sky.waiting.iter().copied().collect::<Vec<_>>(), vec![4, 2]);
    assert_eq!(sky.next_forge(), Some((4, 1, (8, 8))));
    assert_eq!(sky.next_forge(), Some((2, 0, (4, 2))));
    assert_eq!(sky.next_forge(), None);
}

#[test]
fn a_new_size_regrows_the_whole_sky() {
    let mut sky = Sky::new(1);
    sky.sizes = vec![(4, 2), (8, 8), (16, 9)];
    for &tier in &DEPTHS {
        sky.hang(tier, anvil(1, 1, vec![0]));
    }
    sky.wait_for(5);
    assert!(!sky.regrow(vec![(4, 2), (8, 8), (16, 9)]), "the same sizes change nothing");
    assert_eq!(sky.waiting.len(), 1);
    assert!(sky.regrow(vec![(5, 3), (8, 8), (16, 9)]));
    assert_eq!(sky.sizes, vec![(5, 3), (8, 8), (16, 9)]);
    assert_eq!(
        sky.waiting.iter().copied().collect::<Vec<_>>(),
        vec![5, 0, 1, 2, 3, 4, 6]
    );
    sky.finish(5, anvil(5, 3, vec![0; 15]));
    assert_eq!(sky.shapes[5].width, 5);
    assert_eq!(sky.grown, DRIFTERS as u64 + 1);
}

#[test]
fn a_malformed_window_is_ignored() {
    assert_eq!(RESIZE_COMMAND, "window");
    assert_eq!(parse_window("1600 1000"), Some(DEFAULT_WINDOW));
    assert_eq!(parse_window(" 1600\t\n1000 "), Some((1600, 1000)));
    for payload in ["", "wide", "1600", "1600 x", "0 0", "1 0", "-8 -8", "1 2 3"] {
        assert_eq!(parse_window(payload), None, "payload {payload:?} should be rejected");
    }
    assert_eq!(window_payload(2560, 1440), "2560 1440");
    assert_eq!(parse_window(&window_payload(u32::MAX, 1)), Some((u32::MAX, 1)));
}

#[test]
fn counts_are_grouped_in_thousands() {
    assert_eq!(grouped(0), "0");
    assert_eq!(grouped(999), "999");
    assert_eq!(grouped(1000), "1,000");
    assert_eq!(grouped(1_000_001), "1,000,001");
    assert_eq!(grouped(1_234_567), "1,234,567");
    assert_eq!(grouped(u64::MAX), "18,446,744,073,709,551,615");
}

#[test]
fn a_new_forge_starts_from_open_sky() {
    let forge = Forge::start(1, 2, (10, 9), 3, 1);
    assert_eq!((forge.target, forge.tier), (1, 2));
    assert_eq!((forge.width, forge.height), (10, 9));
    assert_eq!(forge.cells, vec![0; 90]);
    assert_eq!(forge.bands, vec![0; 90]);
    assert_eq!(forge.hem, vec![0; 10]);
    assert!(!forge.done());
}

#[test]
fn an_allowance_buys_one_job_at_a_time_until_it_runs_out() {
    let mut forge = Forge::start(0, 0, (8, 8), 2, 1);
    assert_eq!(forge.work_step(5, 5), Job::Finished, "a spent allowance buys nothing");
    assert!(!forge.done());
    assert_eq!(forge.work_step(0, 1), Job::Stamp(0), "any allowance buys real work");
    assert_eq!(forge.work_step(0, 1), Job::Stamp(1));
    assert_eq!(forge.work_step(0, 1), Job::Shade(0));
    let mut steps = 3;
    while forge.work_step(0, u64::MAX) != Job::Finished {
        steps += 1;
    }
    assert_eq!(steps, 2 + 8 + 8 + 8);
    assert!(forge.done());
    assert_eq!(forge.work_step(0, u64::MAX), Job::Finished, "a finished forge stays finished");
    assert_eq!(forge.take(3).cells, vec![0; 64]);
}
