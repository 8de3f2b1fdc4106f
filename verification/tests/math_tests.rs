use occ_raycasting::math::{clamp, Vec3Fx, AABB, FX_ONE};

#[test]
fn test_clamp() {
    assert_eq!(clamp(3, 0, 10), 3);
    assert_eq!(clamp(-2, 0, 10), 0);
    assert_eq!(clamp(11, 0, 10), 10);
}

#[test]
fn test_point_distance() {
    let mut aabb = AABB::new();
    aabb.extend_pos(&Vec3Fx::new(0, 0, 0));
    aabb.extend_pos(&Vec3Fx::new(FX_ONE, FX_ONE, FX_ONE));

    let unit_sq: u128 = (FX_ONE as u128) * (FX_ONE as u128);
    assert_eq!(aabb.point_distance_squared(&Vec3Fx::new(0, 0, 0)), 0);
    assert_eq!(
        aabb.point_distance_squared(&Vec3Fx::new(-FX_ONE, 0, 0)),
        unit_sq
    );
    assert_eq!(
        aabb.point_distance_squared(&Vec3Fx::new(2 * FX_ONE, 0, 0)),
        unit_sq
    );
    assert_eq!(
        aabb.point_distance_squared(&Vec3Fx::new(-FX_ONE, 2 * FX_ONE, 0)),
        2 * unit_sq
    );
}

#[test]
fn test_point_distance_zero_iff_contains() {
    let mut aabb = AABB::new();
    aabb.extend_pos(&Vec3Fx::new(-5, -5, -5));
    aabb.extend_pos(&Vec3Fx::new(5, 5, 5));

    for x in [-6, -5, 0, 5, 6] {
        let p = Vec3Fx::new(x, 0, 0);
        let inside = aabb.contains_point(&p);
        let d = aabb.point_distance_squared(&p);
        assert_eq!(inside, d == 0);
    }
}

#[test]
fn test_aabb_new_is_empty() {
    let aabb = AABB::new();
    assert!(aabb.is_empty());
    let aabb: AABB = Default::default();
    assert!(aabb.is_empty());
}

#[test]
fn test_aabb_extend_center_size() {
    let mut aabb = AABB::new();
    aabb.extend_pos(&Vec3Fx::new(0, 2, 4));
    aabb.extend_pos(&Vec3Fx::new(10, 6, 8));
    assert!(!aabb.is_empty());
    assert_eq!(*aabb.get_min(), Vec3Fx::new(0, 2, 4));
    assert_eq!(*aabb.get_max(), Vec3Fx::new(10, 6, 8));
    assert_eq!(aabb.get_center(), Vec3Fx::new(5, 4, 6));
    assert_eq!(aabb.get_size(), Vec3Fx::new(10, 4, 4));
    assert_eq!(*aabb.corner(0), Vec3Fx::new(0, 2, 4));
    assert_eq!(*aabb.corner(1), Vec3Fx::new(10, 6, 8));
}

#[test]
fn test_aabb_extend_bbox_and_contains() {
    let mut a = AABB::new();
    a.extend_pos(&Vec3Fx::new(0, 0, 0));
    a.extend_pos(&Vec3Fx::new(4, 4, 4));

    let mut b = AABB::new();
    b.extend_pos(&Vec3Fx::new(1, 1, 1));
    b.extend_pos(&Vec3Fx::new(2, 2, 2));

    assert!(a.contains_aabb(&b));
    assert!(!b.contains_aabb(&a));

    let mut c = AABB::new();
    c.extend_bbox(&a);
    c.extend_bbox(&b);
    assert_eq!(*c.get_min(), Vec3Fx::new(0, 0, 0));
    assert_eq!(*c.get_max(), Vec3Fx::new(4, 4, 4));

    assert!(a.contains_point(&Vec3Fx::new(4, 4, 4)));
    assert!(!a.contains_point(&Vec3Fx::new(5, 4, 4)));
}

#[test]
fn test_aabb_new_cube() {
    let cube = AABB::new_cube(&Vec3Fx::new(10, 10, 10), 4);
    assert_eq!(*cube.get_min(), Vec3Fx::new(8, 8, 8));
    assert_eq!(*cube.get_max(), Vec3Fx::new(12, 12, 12));
}

#[test]
fn test_aabb_from_positions() {
    let positions = vec![
        Vec3Fx::new(3, -1, 2),
        Vec3Fx::new(-5, 7, 0),
        Vec3Fx::new(1, 1, 9),
    ];
    let aabb = AABB::from_positions(&positions);
    assert_eq!(*aabb.get_min(), Vec3Fx::new(-5, -1, 0));
    assert_eq!(*aabb.get_max(), Vec3Fx::new(3, 7, 9));
}
