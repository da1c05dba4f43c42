use rand::rngs::StdRng;
use rand::{Rng, SeedableRng};
use terrain_mesh::{generate_lattice, unit_sample, ControlLattice, ONE};

#[test]
fn unit_sample_keeps_the_top_24_bits() {
    assert_eq!(unit_sample(0), 0);
    assert_eq!(unit_sample(255), 0);
    assert_eq!(unit_sample(256), 1);
    assert_eq!(unit_sample(0x1234_5678), 0x12_3456);
    assert_eq!(unit_sample(u32::MAX), 0xff_ffff);
}

#[test]
fn from_rows_accepts_a_square_grid() {
    let l = ControlLattice::from_rows(vec![vec![1, 2], vec![3, 4]]).unwrap();
    assert_eq!(l.size(), 2);
    assert_eq!(l.get(0, 0), 1);
    assert_eq!(l.get(0, 1), 2);
    assert_eq!(l.get(1, 0), 3);
    assert_eq!(l.get(1, 1), 4);
}

#[test]
fn from_rows_accepts_the_largest_value() {
    let top = (ONE - 1) as u32;
    let l = ControlLattice::from_rows(vec![vec![top, 0], vec![0, top]]).unwrap();
    assert_eq!(l.get(0, 0), top);
}

#[test]
fn from_rows_refuses_fewer_than_two_rows() {
    assert!(ControlLattice::from_rows(vec![]).is_none());
    assert!(ControlLattice::from_rows(vec![vec![0]]).is_none());
}

#[test]
fn from_rows_refuses_a_grid_that_is_not_square() {
    assert!(ControlLattice::from_rows(vec![vec![0, 0, 0], vec![0, 0, 0]]).is_none());
    assert!(ControlLattice::from_rows(vec![vec![0, 0], vec![0]]).is_none());
    assert!(ControlLattice::from_rows(vec![vec![0, 0], vec![0, 0, 0]]).is_none());
}

#[test]
fn from_rows_refuses_a_value_of_one_or_more() {
    assert!(ControlLattice::from_rows(vec![vec![0, 0], vec![0, ONE as u32]]).is_none());
    assert!(ControlLattice::from_rows(vec![vec![u32::MAX, 0], vec![0, 0]]).is_none());
}

#[test]
fn generated_lattice_has_the_size_asked_for() {
    let mut rng = StdRng::seed_from_u64(1);
    for size in [2usize, 3, 11, 40] {
        let l = generate_lattice(size, &mut rng);
        assert_eq!(l.size(), size);
        for i in 0..size {
            for j in 0..size {
                assert!((l.get(i, j) as i64) < ONE);
            }
        }
    }
}

#[test]
fn generated_lattice_is_fixed_by_the_seed() {
    let a = generate_lattice(9, &mut StdRng::seed_from_u64(42));
    let b = generate_lattice(9, &mut StdRng::seed_from_u64(42));
    let c = generate_lattice(9, &mut StdRng::seed_from_u64(43));
    let mut differs = false;
    for i in 0..9 {
        for j in 0..9 {
            assert_eq!(a.get(i, j), b.get(i, j));
            differs |= a.get(i, j) != c.get(i, j);
        }
    }
    assert!(differs);
}

#[test]
fn generated_lattice_takes_one_draw_per_cell_row_by_row() {
    let l = generate_lattice(5, &mut StdRng::seed_from_u64(7));
    let mut rng = StdRng::seed_from_u64(7);
    for i in 0..5 {
        for j in 0..5 {
            let bits: u32 = rng.gen();
            assert_eq!(l.get(i, j), bits >> 8);
        }
    }
}

#[test]
fn generated_lattice_matches_single_precision_samples() {
    let l = generate_lattice(6, &mut StdRng::seed_from_u64(2024));
    let mut rng = StdRng::seed_from_u64(2024);
    for i in 0..6 {
        for j in 0..6 {
            let sample: f32 = rng.gen();
            assert_eq!(l.get(i, j) as f32 / ONE as f32, sample);
            assert!(sample >= 0.0 && sample < 1.0);
        }
    }
}

#[test]
fn generated_lattice_values_vary() {
    let l = generate_lattice(8, &mut StdRng::seed_from_u64(5));
    let first = l.get(0, 0);
    let mut varied = false;
    for i in 0..8 {
        for j in 0..8 {
            varied |= l.get(i, j) != first;
        }
    }
    assert!(varied);
}
