use terrain_mesh::{
    build_terrain_mesh, toggle_uv_band, ControlLattice, MeshBuffers, NormalMode, TerrainConfig,
    Uv, HALF, ONE,
};

fn mesh(y_max: usize) -> MeshBuffers {
    let lattice = ControlLattice::from_rows(vec![vec![9; 12]; 12]).unwrap();
    let config = TerrainConfig {
        x_max: 3,
        y_max,
        step: 1,
        second_octave: false,
        extent_x: 4 * ONE as u32,
        extent_y: 4 * ONE as u32,
        normals: NormalMode::Flat,
    };
    assert_eq!(config.validate(12), Ok(()));
    build_terrain_mesh(&lattice, &config)
}

#[test]
fn toggle_moves_low_band_up_and_high_band_down() {
    let mut m = mesh(4);
    // v is 0, 1/4, 1/2, 3/4 along y
    toggle_uv_band(&mut m);
    assert_eq!(m.uvs[0], Uv { u: 0, v: HALF });
    assert_eq!(m.uvs[1], Uv { u: 0, v: ONE / 4 + HALF });
    assert_eq!(m.uvs[2], Uv { u: 0, v: 0 });
    assert_eq!(m.uvs[3], Uv { u: 0, v: ONE / 4 });
    assert_eq!(m.uvs[4], Uv { u: ONE / 3, v: HALF });
}

#[test]
fn toggle_at_the_seam_goes_down() {
    let mut m = mesh(2);
    assert_eq!(m.uvs[1].v, HALF);
    toggle_uv_band(&mut m);
    assert_eq!(m.uvs[1].v, 0);
    toggle_uv_band(&mut m);
    assert_eq!(m.uvs[1].v, HALF);
}

#[test]
fn toggle_just_below_the_seam_goes_up() {
    let mut m = mesh(2);
    m.uvs[0].v = HALF - 1;
    m.uvs[1].v = ONE - 1;
    toggle_uv_band(&mut m);
    assert_eq!(m.uvs[0].v, ONE - 1);
    assert_eq!(m.uvs[1].v, HALF - 1);
}

#[test]
fn toggle_twice_gives_the_mesh_back() {
    for y_max in [1usize, 2, 3, 4, 7, 10] {
        let before = mesh(y_max);
        let mut m = mesh(y_max);
        toggle_uv_band(&mut m);
        assert_ne!(m.uvs, before.uvs);
        toggle_uv_band(&mut m);
        assert_eq!(m.uvs, before.uvs);
    }
}

#[test]
fn toggle_leaves_the_rest_of_the_mesh() {
    let before = mesh(5);
    let mut m = mesh(5);
    toggle_uv_band(&mut m);
    assert_eq!(m.positions, before.positions);
    assert_eq!(m.indices, before.indices);
    assert_eq!(m.normals, before.normals);
    assert_eq!((m.x_max, m.y_max), (before.x_max, before.y_max));
    assert_eq!((m.extent_x, m.extent_y), (before.extent_x, before.extent_y));
    for (now, was) in m.uvs.iter().zip(&before.uvs) {
        assert_eq!(now.u, was.u);
    }
}
