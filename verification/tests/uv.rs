use dem2mesh::uv::{planar_uv, synthesize_uvs};

#[test]
fn tile_edges_map_to_zero_and_one() {
    assert_eq!(planar_uv(-1280, 2560), 0);
    assert_eq!(planar_uv(1280, 2560), 65536);
    assert_eq!(planar_uv(0, 2560), 32768);
    assert_eq!(planar_uv(-640, 2560), 16384);
}

#[test]
fn texture_coordinates_round_down() {
    assert_eq!(planar_uv(0, 3), 32768);
    assert_eq!(planar_uv(1, 3), 54613);
    assert_eq!(planar_uv(-1, 3), 10922);
    assert_eq!(planar_uv(-2, 3), -10923);
    assert_eq!(planar_uv(-1, 7), 23405);
}

#[test]
fn positions_off_the_tile_are_not_clamped() {
    assert_eq!(planar_uv(2560, 2560), 98304);
    assert_eq!(planar_uv(-2560, 2560), -32768);
    assert_eq!(planar_uv(i32::MAX, 1), 4294967295i64 * 32768);
    assert_eq!(planar_uv(i32::MIN, 1), -4294967295i64 * 32768);
    assert_eq!(planar_uv(i32::MIN, i32::MAX), -32769);
}

#[test]
fn texture_coordinates_match_the_real_valued_formula() {
    let size = 2560;
    for x in [-1280, -1000, -1, 0, 1, 640, 1279, 1280] {
        let real = (x as f64 / 256.0 + 10.0 / 2.0) / 10.0;
        let fixed = planar_uv(x, size) as f64 / 65536.0;
        assert!((real - fixed).abs() < 1.0 / 65536.0);
    }
}

#[test]
fn one_pair_per_vertex() {
    let positions = vec![-1280, 1280, 7, 0, 0, -9, 1280, -1280, 100];
    let uvs = synthesize_uvs(&positions, 2560);
    assert_eq!(uvs, vec![0, 65536, 32768, 32768, 65536, 0]);
}

#[test]
fn elevation_does_not_matter() {
    let low = synthesize_uvs(&[5, -7, i32::MIN, 100, 200, 0], 1000);
    let high = synthesize_uvs(&[5, -7, i32::MAX, 100, 200, 12345], 1000);
    assert_eq!(low, high);
}

#[test]
fn synthesis_is_repeatable() {
    let positions: Vec<i32> = (0..300).map(|i| (i * 37 % 2561) - 1280).collect();
    assert_eq!(synthesize_uvs(&positions, 2560), synthesize_uvs(&positions, 2560));
}

#[test]
fn empty_buffer_has_no_texture_coordinates() {
    assert!(synthesize_uvs(&[], 2560).is_empty());
}

#[test]
fn odd_sizes_use_the_exact_half() {
    for size in [1, 3, 7, 255, 2561] {
        assert_eq!(planar_uv(0, size), 32768);
        for x in [-3, -1, 0, 1, 2, 100] {
            let real = (x as f64 + size as f64 / 2.0) / size as f64;
            let fixed = planar_uv(x, size) as f64 / 65536.0;
            assert!(fixed <= real && real - fixed < 1.0 / 65536.0);
        }
    }
}
