use occ_raycasting::config::{OcclusionSetup, RasterizerOptions};
use occ_raycasting::{OccOptions, TestStats};

#[test]
fn test_occ_options_default() {
    let options = OccOptions::default();
    assert_eq!(options.num_threads, 1);
    assert_eq!(options.frame_size, 256);
}

#[test]
fn test_test_stats_add() {
    let a = TestStats {
        num_triangles: 3,
        num_volume_tests: 10,
    };
    let b = TestStats {
        num_triangles: 4,
        num_volume_tests: 1,
    };
    let c = a.add(b);
    assert_eq!(c.num_triangles, 7);
    assert_eq!(c.num_volume_tests, 11);

    // The all-zero record is the unit of the sum.
    let zero = TestStats::default();
    assert_eq!(a.add(zero), a);
    assert_eq!(zero.add(a), a);

    let mut d = a;
    d.add_assign(b);
    assert_eq!(d, c);
}

#[test]
fn test_config_values() {
    let setup = OcclusionSetup::Rasterizer;
    assert_ne!(setup, OcclusionSetup::NaiveRaycaster);

    let options = RasterizerOptions { frame_size: 512 };
    assert_eq!(options.frame_size, 512);
}
