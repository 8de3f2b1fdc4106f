use occ_raycasting::math::{Vec3Fx, DEPTH_ONE, FX_ONE};
use occ_raycasting::rasterizer::Rasterizer;
use occ_raycasting::visibility::compute_visibility_from_id_buffer;

/// The fixed-point window coordinate of a pixel position.
fn px(v: f32) -> i64 {
    (v * FX_ONE as f32).round() as i64
}

/// The fixed-point depth of a normalized depth value.
fn depth(v: f32) -> i64 {
    (v * DEPTH_ONE as f32) as i64
}

/// The analytic area of the triangle spanned by three pixel positions.
fn compute_triangle_area(p0: (f32, f32), p1: (f32, f32), p2: (f32, f32)) -> f32 {
    let ax = p1.0 - p0.0;
    let ay = p1.1 - p0.1;
    let bx = p2.0 - p0.0;
    let by = p2.1 - p0.1;
    (ax * by - ay * bx).abs() / 2f32
}

/// Rasterizes one quad covering the whole frame at the given depth, as two
/// generously overshooting triangles.
fn rasterize_full_quad(r: &mut Rasterizer, id: u32, z: i64) {
    let lo = px(-10.0);
    let hi = px(140.0);
    r.rasterize(
        id,
        &Vec3Fx::new(lo, lo, z),
        &Vec3Fx::new(hi, lo, z),
        &Vec3Fx::new(hi, hi, z),
    );
    r.rasterize(
        id,
        &Vec3Fx::new(lo, lo, z),
        &Vec3Fx::new(hi, hi, z),
        &Vec3Fx::new(lo, hi, z),
    );
}

#[test]
fn test_fill_bottom_flat_triangle() {
    let size = 128usize;
    let mut r = Rasterizer::new(size, size);

    let id = 42;

    let p0 = Vec3Fx::new(px(20.0), px(10.0), depth(0.5));
    let p1 = Vec3Fx::new(px(40.0), px(40.0), depth(0.5));
    let p2 = Vec3Fx::new(px(10.0), px(40.0), depth(0.5));

    r.fill_bottom_flat_triangle(id, &p0, &p1, &p2);

    let area = compute_triangle_area((20.0, 10.0), (40.0, 40.0), (10.0, 40.0));

    let num_ids = r.id_buffer.iter().filter(|i| **i == Some(id)).count();
    println!("Num Ids: {}", num_ids);
    println!("Triangle Area: {}", area);

    let height = 30f32;
    let error_eps = height * 2f32;

    assert!(((num_ids as f32) - area).abs() <= error_eps);

    let mut last_line_length: usize = 0;

    for y in 0..size {
        let mut x_start = size;
        let mut x_end: usize = 0;

        for x in 0..size {
            let id = r.id_buffer[y * size + x];
            if id == Some(42) {
                x_start = x_start.min(x);
                x_end = x_end.max(x);
            }
        }

        let line_length = if x_start > x_end {
            0
        } else {
            x_end - x_start + 1
        };

        assert!(!(10..=40).contains(&y) || line_length > 0);
        assert!(!(10..=40).contains(&y) || last_line_length <= line_length);

        last_line_length = line_length;
    }
}

#[test]
fn test_fill_top_flat_triangle() {
    let size = 128usize;
    let mut r = Rasterizer::new(size, size);

    let id = 42;

    let p0 = Vec3Fx::new(px(40.0), px(10.0), depth(0.5));
    let p1 = Vec3Fx::new(px(10.0), px(10.0), depth(0.5));
    let p2 = Vec3Fx::new(px(20.0), px(40.0), depth(0.5));

    r.fill_top_flat_triangle(id, &p0, &p1, &p2);

    let area = compute_triangle_area((40.0, 10.0), (10.0, 10.0), (20.0, 40.0));

    let num_ids = r.id_buffer.iter().filter(|i| **i == Some(id)).count();
    println!("Num Ids: {}", num_ids);
    println!("Triangle Area: {}", area);

    let height = 30f32;
    let error_eps = height * 2f32;

    assert!(((num_ids as f32) - area).abs() <= error_eps);

    let mut last_line_length: usize = size;

    for y in 0..size {
        let mut x_start = size;
        let mut x_end: usize = 0;

        for x in 0..size {
            let id = r.id_buffer[y * size + x];
            if id == Some(42) {
                x_start = x_start.min(x);
                x_end = x_end.max(x);
            }
        }

        let line_length = if x_start > x_end {
            0
        } else {
            x_end - x_start + 1
        };

        assert!(!(10..=40).contains(&y) || line_length > 0);
        assert!(y <= 10 || y > 40 || last_line_length >= line_length);

        last_line_length = line_length;
    }
}

#[test]
fn test_rasterizer_starts_empty() {
    let r = Rasterizer::new(64, 64);
    assert!(r.id_buffer.iter().all(|i| i.is_none()));
    assert!(r.depth_buffer.iter().all(|d| *d == u32::MAX));

    let mut visibility = Vec::new();
    compute_visibility_from_id_buffer(&mut visibility, &r.id_buffer, 0);
    assert!(visibility.is_empty());
}

#[test]
fn test_rasterize_full_quad_coverage() {
    let size = 128usize;
    let mut r = Rasterizer::new(size, size);
    rasterize_full_quad(&mut r, 0, depth(0.5));

    assert!(r.id_buffer.iter().all(|i| *i == Some(0)));

    let mut visibility = Vec::new();
    compute_visibility_from_id_buffer(&mut visibility, &r.id_buffer, 1);
    assert_eq!(visibility, vec![(0, (size * size) as u64)]);
}

#[test]
fn test_rasterize_front_occludes_back() {
    let size = 64usize;
    let mut r = Rasterizer::new(size, size);
    // The front quad is rasterized first; the back quad must not win any
    // pixel against it.
    rasterize_full_quad(&mut r, 0, depth(0.25));
    rasterize_full_quad(&mut r, 1, depth(0.75));

    assert!(r.id_buffer.iter().all(|i| *i == Some(0)));

    let mut visibility = Vec::new();
    compute_visibility_from_id_buffer(&mut visibility, &r.id_buffer, 2);
    assert_eq!(visibility, vec![(0, (size * size) as u64), (1, 0)]);
}

#[test]
fn test_rasterize_nearer_overwrites() {
    let size = 32usize;
    let mut r = Rasterizer::new(size, size);
    rasterize_full_quad(&mut r, 7, depth(0.75));
    assert!(r.id_buffer.iter().all(|i| *i == Some(7)));

    // A strictly nearer quad takes every pixel over.
    rasterize_full_quad(&mut r, 8, depth(0.25));
    assert!(r.id_buffer.iter().all(|i| *i == Some(8)));

    // An equally near quad does not: the first writer keeps the pixel.
    rasterize_full_quad(&mut r, 9, depth(0.25));
    assert!(r.id_buffer.iter().all(|i| *i == Some(8)));
}

#[test]
fn test_rasterize_out_of_range_depth_dropped() {
    let size = 32usize;
    let mut r = Rasterizer::new(size, size);
    rasterize_full_quad(&mut r, 3, -depth(0.5));
    assert!(r.id_buffer.iter().all(|i| i.is_none()));
    rasterize_full_quad(&mut r, 3, 2 * DEPTH_ONE);
    assert!(r.id_buffer.iter().all(|i| i.is_none()));
}

#[test]
fn test_id_implies_depth() {
    let size = 64usize;
    let mut r = Rasterizer::new(size, size);
    let p0 = Vec3Fx::new(px(5.0), px(5.0), depth(0.25));
    let p1 = Vec3Fx::new(px(40.0), px(20.0), depth(0.5));
    let p2 = Vec3Fx::new(px(20.0), px(50.0), depth(0.75));
    r.rasterize(11, &p0, &p1, &p2);

    let mut written = 0usize;
    for i in 0..size * size {
        match r.id_buffer[i] {
            Some(_) => {
                assert!(r.depth_buffer[i] < u32::MAX);
                written += 1;
            }
            None => assert_eq!(r.depth_buffer[i], u32::MAX),
        }
    }
    assert!(written > 0);
}

#[test]
fn test_clear() {
    let size = 32usize;
    let mut r = Rasterizer::new(size, size);
    rasterize_full_quad(&mut r, 5, depth(0.5));
    assert!(r.id_buffer.iter().any(|i| i.is_some()));

    r.clear();
    assert!(r.id_buffer.iter().all(|i| i.is_none()));
    assert!(r.depth_buffer.iter().all(|d| *d == u32::MAX));
}

#[test]
fn test_get_frame() {
    let size = 16usize;
    let mut r = Rasterizer::new(size, size);
    rasterize_full_quad(&mut r, 2, depth(0.5));

    let frame = r.get_frame();
    assert_eq!(frame.get_width(), size);
    assert_eq!(frame.get_height(), size);
    assert_eq!(frame.get_id_buffer().as_slice(), r.id_buffer.as_slice());
    let depths = frame.get_depth_buffer().unwrap();
    assert_eq!(depths.as_slice(), r.depth_buffer.as_slice());
    assert!(depths.iter().all(|d| *d == depth(0.5) as u32));
}

#[test]
fn test_rasterize_degenerate_line() {
    let size = 64usize;
    let mut r = Rasterizer::new(size, size);
    // All three vertices on one rounded row: a single scanline is drawn.
    let p0 = Vec3Fx::new(px(10.0), px(7.0), depth(0.5));
    let p1 = Vec3Fx::new(px(20.0), px(7.1), depth(0.5));
    let p2 = Vec3Fx::new(px(30.0), px(7.2), depth(0.5));
    r.rasterize(4, &p0, &p1, &p2);

    for y in 0..size {
        for x in 0..size {
            let id = r.id_buffer[y * size + x];
            if y == 7 && (10..=30).contains(&x) {
                assert_eq!(id, Some(4));
            } else {
                assert_eq!(id, None);
            }
        }
    }
}
