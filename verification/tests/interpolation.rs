use terrain_mesh::{interpolate, ControlLattice, ONE};

fn lattice(rows: &[&[u32]]) -> ControlLattice {
    ControlLattice::from_rows(rows.iter().map(|r| r.to_vec()).collect()).unwrap()
}

fn smoothstep(t: f64) -> f64 {
    3.0 * t * t - 2.0 * t * t * t
}

#[test]
fn origin_is_first_lattice_value() {
    let l = lattice(&[&[7, 8, 9], &[10, 11, 12], &[13, 14, 15]]);
    assert_eq!(interpolate(&l, 0, 0, 2), 7);
    assert_eq!(interpolate(&l, 0, 0, 1), 7);
    assert_eq!(interpolate(&l, 0, 0, 20), 7);
}

#[test]
fn lattice_points_are_exact() {
    let rows: Vec<Vec<u32>> = (0..4u32)
        .map(|i| (0..4u32).map(|j| 1000 * i + 37 * j + 5).collect())
        .collect();
    let l = ControlLattice::from_rows(rows.clone()).unwrap();
    for step in [1usize, 2, 3, 20] {
        for kx in 0..3usize {
            for ky in 0..3usize {
                assert_eq!(
                    interpolate(&l, kx * step, ky * step, step),
                    rows[kx][ky] as i64
                );
            }
        }
    }
}

#[test]
fn halfway_along_x_is_the_mean() {
    // step 2, offset 1: S(1/2) = 1/2.
    let l = lattice(&[&[0, 0], &[1000, 1000]]);
    assert_eq!(interpolate(&l, 1, 0, 2), 500);
}

#[test]
fn quarter_along_x_follows_the_ease_curve() {
    // step 4, offset 1: S(1/4) = 3/16 - 2/64 = 10/64.
    let l = lattice(&[&[0, 0], &[6400, 6400]]);
    assert_eq!(interpolate(&l, 1, 0, 4), 1000);
    // offset 3: S(3/4) = 27/16 - 54/64 = 54/64.
    assert_eq!(interpolate(&l, 3, 0, 4), 5400);
}

#[test]
fn halfway_in_both_axes_blends_four_corners() {
    // a = 0, b = 400, c = 800, d = 2000, Sx = Sy = 1/2:
    // 0 + 400/2 + 800/2 + (0 - 400 - 800 + 2000)/4 = 800.
    let l = lattice(&[&[0, 800], &[400, 2000]]);
    assert_eq!(interpolate(&l, 1, 1, 2), 800);
}

#[test]
fn x_runs_along_the_first_lattice_index() {
    let l = lattice(&[&[0, 0], &[1000, 1000]]);
    assert_eq!(interpolate(&l, 1, 0, 2), 500);
    assert_eq!(interpolate(&l, 0, 1, 2), 0);
    let t = lattice(&[&[0, 1000], &[0, 1000]]);
    assert_eq!(interpolate(&t, 1, 0, 2), 0);
    assert_eq!(interpolate(&t, 0, 1, 2), 500);
}

#[test]
fn blend_is_rounded_down() {
    let l = lattice(&[&[0, 0], &[1, 1]]);
    assert_eq!(interpolate(&l, 1, 0, 2), 0);
    let m = lattice(&[&[3, 3], &[0, 0]]);
    // 3 - 3 * 10/64 = 2.53..
    assert_eq!(interpolate(&m, 1, 0, 4), 2);
}

#[test]
fn second_cell_uses_its_own_corners() {
    let l = lattice(&[&[0, 0, 0], &[1000, 1000, 1000], &[3000, 3000, 3000]]);
    assert_eq!(interpolate(&l, 2, 0, 2), 1000);
    assert_eq!(interpolate(&l, 3, 0, 2), 2000);
    assert_eq!(interpolate(&l, 3, 3, 2), 2000);
}

#[test]
fn level_cell_is_level() {
    let v = (ONE - 1) as u32;
    let l = lattice(&[&[v, v], &[v, v]]);
    for xi in 0..7usize {
        for yi in 0..7usize {
            assert_eq!(interpolate(&l, xi, yi, 7), v as i64);
        }
    }
}

#[test]
fn heights_stay_between_the_corners() {
    let l = lattice(&[&[100, 16_000_000], &[5_000_000, 9]]);
    for xi in 0..20usize {
        for yi in 0..20usize {
            let z = interpolate(&l, xi, yi, 20);
            assert!(z >= 9 && z <= 16_000_000);
        }
    }
}

#[test]
fn largest_step_does_not_overflow() {
    let v = (ONE - 1) as u32;
    let l = lattice(&[&[v, v], &[v, 0]]);
    let step = terrain_mesh::MAX_STEP;
    assert_eq!(interpolate(&l, 0, 0, step), v as i64);
    // Next to the far corner the weight of the other three is about 6 / 2^32.
    assert_eq!(interpolate(&l, step - 1, step - 1, step), 0);
    // Sx = Sy = 1/2: v - v/4 = 12582911.25, rounded down.
    assert_eq!(interpolate(&l, step / 2, step / 2, step), 12_582_911);
}

#[test]
fn agrees_with_the_formula_in_floating_point() {
    let rows: Vec<Vec<u32>> = (0..6u32)
        .map(|i| {
            (0..6u32)
                .map(|j| (i * 2_654_435 + j * 40_503 + i * j * 977) % (ONE as u32))
                .collect()
        })
        .collect();
    let l = ControlLattice::from_rows(rows.clone()).unwrap();
    let step = 20usize;
    let scale = ONE as f64;
    for xi in 0..100usize {
        for yi in 0..100usize {
            let (cx, cy) = (xi / step, yi / step);
            let a = rows[cx][cy] as f64 / scale;
            let b = rows[cx + 1][cy] as f64 / scale;
            let c = rows[cx][cy + 1] as f64 / scale;
            let d = rows[cx + 1][cy + 1] as f64 / scale;
            let sx = smoothstep((xi % step) as f64 / step as f64);
            let sy = smoothstep((yi % step) as f64 / step as f64);
            let expected = a + (b - a) * sx + (c - a) * sy + (a - b - c + d) * sx * sy;
            let got = interpolate(&l, xi, yi, step) as f64 / scale;
            assert!((got - expected).abs() < 1.0e-7, "({xi}, {yi})");
        }
    }
}
