use rasterizer::camera::Camera;
use rasterizer::color::Color;
use rasterizer::depth_buffer::DepthBuffer;
use rasterizer::draw_buffer::DrawBuffer;
use rasterizer::fixed::ONE;
use rasterizer::game_object::GameObject;
use rasterizer::matrices::{ModelMatrix, TrigAngles};
use rasterizer::mesh::Mesh;
use rasterizer::rasterizer::{scene_renderable_check, Rasterizer, ScreenVertex};
use rasterizer::scene::Scene;
use rasterizer::vec4::Vec4;

fn identity_pose() -> ModelMatrix {
    ModelMatrix::new(
        Vec4::new(0, 0, 0, ONE),
        Vec4::new(0, 0, 0, 0),
        TrigAngles::zero_angles(),
        Vec4::new(ONE, ONE, ONE, 0),
    )
}

fn test_camera(z_near: i64, z_far: i64) -> Camera {
    Camera::new(identity_pose(), 102944, ONE, ONE, z_near, z_far)
}

/// A clip-space point on the line z == -w, so that clipped vertices land
/// exactly on the near plane.
fn pw(x: i64, y: i64, w: i64) -> Vec4 {
    Vec4::new(x, y, -w, w)
}

fn fresh_rasterizer(w: usize, h: usize) -> Rasterizer {
    let draw = DrawBuffer::new(vec![0u32; w * h], w, h);
    let depth = DepthBuffer::new(vec![ONE; w * h], w, h);
    Rasterizer::new(draw, depth)
}

fn up_normal() -> Vec4 {
    Vec4::new(0, 0, ONE, 0)
}

#[test]
fn clip_passes_through_a_fully_visible_triangle() {
    let cam = test_camera(ONE, 16 * ONE);
    let v0 = pw(0, 0, 2 * ONE);
    let v1 = pw(ONE, 0, 3 * ONE);
    let v2 = pw(0, ONE, 4 * ONE);
    let (o0, o1, o2, o3) = Rasterizer::clip_triangle(v0, v1, v2, &cam);
    let r0 = o0.unwrap();
    let r1 = o1.unwrap();
    let r2 = o2.unwrap();
    assert!(o3.is_none());
    assert_eq!((r0.x, r0.y, r0.z, r0.w), (v0.x, v0.y, v0.z, v0.w));
    assert_eq!((r1.x, r1.y, r1.z, r1.w), (v1.x, v1.y, v1.z, v1.w));
    assert_eq!((r2.x, r2.y, r2.z, r2.w), (v2.x, v2.y, v2.z, v2.w));
}

#[test]
fn clip_culls_a_triangle_fully_behind_the_near_plane() {
    let cam = test_camera(ONE, 16 * ONE);
    let v0 = pw(0, 0, ONE / 2);
    let v1 = pw(ONE, 0, ONE / 4);
    let v2 = pw(0, ONE, ONE / 8);
    let (o0, o1, o2, o3) = Rasterizer::clip_triangle(v0, v1, v2, &cam);
    assert!(o0.is_none() && o1.is_none() && o2.is_none() && o3.is_none());
}

#[test]
fn clip_splits_a_triangle_with_one_vertex_behind() {
    let cam = test_camera(ONE, 16 * ONE);
    let v0 = pw(0, 0, 2 * ONE);
    let v1 = pw(ONE, 0, ONE / 2);  // behind the near plane
    let v2 = pw(0, ONE, 2 * ONE);
    let (o0, o1, o2, o3) = Rasterizer::clip_triangle(v0, v1, v2, &cam);
    // Exactly two triangles: four vertices, sharing the edge p0 -> p2.
    let p0 = o0.unwrap();
    let p1 = o1.unwrap();
    let p2 = o2.unwrap();
    let p3 = o3.unwrap();
    // The two unclipped original vertices are part of the output.
    assert_eq!((p0.x, p0.y, p0.z, p0.w), (v2.x, v2.y, v2.z, v2.w));
    assert_eq!((p1.x, p1.y, p1.z, p1.w), (v0.x, v0.y, v0.z, v0.w));
    // The two new vertices lie on the near plane: their clip-space w is
    // the near distance, up to fixed-point rounding.
    let t2 = (p2.w - ONE).abs();
    let t3 = (p3.w - ONE).abs();
    assert!(t2 <= 2, "clipped w {} is not near the plane", p2.w);
    assert!(t3 <= 2, "clipped w {} is not near the plane", p3.w);
}

#[test]
fn clip_with_two_vertices_behind_yields_one_triangle() {
    let cam = test_camera(ONE, 16 * ONE);
    let v0 = pw(0, 0, 2 * ONE);
    let v1 = pw(ONE, 0, ONE / 2);
    let v2 = pw(0, ONE, ONE / 4);
    let (o0, o1, o2, o3) = Rasterizer::clip_triangle(v0, v1, v2, &cam);
    let p0 = o0.unwrap();
    assert!(o1.is_some() && o2.is_some());
    assert!(o3.is_none());
    assert_eq!((p0.x, p0.y, p0.z, p0.w), (v0.x, v0.y, v0.z, v0.w));
    let p1 = o1.unwrap();
    let p2 = o2.unwrap();
    assert!((p1.w - ONE).abs() <= 2);
    assert!((p2.w - ONE).abs() <= 2);
}

/// The edge-function inside test, written out for checking pixels.
fn reference_inside(corners: [(i64, i64); 3], px: i64, py: i64) -> bool {
    let e = |a: (i64, i64), b: (i64, i64)| (b.0 - a.0) * (py - a.1) - (b.1 - a.1) * (px - a.0);
    e(corners[0], corners[1]) >= 0 && e(corners[1], corners[2]) >= 0 && e(corners[2], corners[0])
        >= 0
}

#[test]
fn fill_covers_exactly_the_inside_pixels() {
    let mut r = fresh_rasterizer(8, 8);
    let color = Color::new(200, 120, 40, 255);
    let a = ScreenVertex { x: 1, y: 1, z: ONE / 2 };
    let b = ScreenVertex { x: 6, y: 1, z: ONE / 2 };
    let c = ScreenVertex { x: 1, y: 6, z: ONE / 2 };
    let n = up_normal();
    r.fill_triangle(a, b, c, n, n, n, color);
    for row in 0..8usize {
        for col in 0..8usize {
            let inside = reference_inside([(1, 1), (6, 1), (1, 6)], col as i64, row as i64);
            let pixel = r.draw_buffer.get(row, col);
            let depth = r.depth_buffer.get(row, col);
            if inside {
                // A normal pointing straight at the light keeps the full
                // base color; the flat depth interpolates exactly.
                assert_eq!(pixel, color.format_as_u32(), "pixel ({}, {})", row, col);
                assert_eq!(depth, ONE / 2, "depth ({}, {})", row, col);
            } else {
                assert_eq!(pixel, 0, "pixel ({}, {})", row, col);
                assert_eq!(depth, ONE, "depth ({}, {})", row, col);
            }
        }
    }
}

#[test]
fn depth_test_keeps_the_nearer_triangle_in_either_order() {
    let near_color = Color::new(10, 200, 30, 255);
    let far_color = Color::new(200, 10, 30, 255);
    let a = ScreenVertex { x: 0, y: 0, z: ONE / 4 };
    let b = ScreenVertex { x: 7, y: 0, z: ONE / 4 };
    let c = ScreenVertex { x: 0, y: 7, z: ONE / 4 };
    let a2 = ScreenVertex { x: 0, y: 0, z: ONE / 2 };
    let b2 = ScreenVertex { x: 7, y: 0, z: ONE / 2 };
    let c2 = ScreenVertex { x: 0, y: 7, z: ONE / 2 };
    let n = up_normal();

    let mut first = fresh_rasterizer(8, 8);
    first.fill_triangle(a, b, c, n, n, n, near_color);
    first.fill_triangle(a2, b2, c2, n, n, n, far_color);

    let mut second = fresh_rasterizer(8, 8);
    second.fill_triangle(a2, b2, c2, n, n, n, far_color);
    second.fill_triangle(a, b, c, n, n, n, near_color);

    assert_eq!(first.draw_buffer.buffer(), second.draw_buffer.buffer());
    assert_eq!(first.depth_buffer.buffer(), second.depth_buffer.buffer());
    // The overlap keeps the nearer color.
    assert_eq!(first.draw_buffer.get(2, 2), near_color.format_as_u32());
    assert_eq!(first.depth_buffer.get(2, 2), ONE / 4);
}

#[test]
fn clockwise_winding_is_culled_and_counter_clockwise_is_drawn() {
    let color = Color::new(255, 255, 255, 255);
    let n = up_normal();
    let z = ONE / 2;

    // Clockwise: (0,0), (0,10), (10,0) has non-positive signed area.
    let mut culled = fresh_rasterizer(12, 12);
    culled.draw_triangle(
        ScreenVertex { x: 0, y: 0, z },
        ScreenVertex { x: 0, y: 10, z },
        ScreenVertex { x: 10, y: 0, z },
        n,
        n,
        n,
        color,
    );
    for row in 0..12usize {
        for col in 0..12usize {
            assert_eq!(culled.draw_buffer.get(row, col), 0);
            assert_eq!(culled.depth_buffer.get(row, col), ONE);
        }
    }

    // The same three points wound counter-clockwise are rasterized.
    let mut drawn = fresh_rasterizer(12, 12);
    drawn.draw_triangle(
        ScreenVertex { x: 0, y: 0, z },
        ScreenVertex { x: 10, y: 0, z },
        ScreenVertex { x: 0, y: 10, z },
        n,
        n,
        n,
        color,
    );
    assert_eq!(drawn.draw_buffer.get(2, 2), color.format_as_u32());
}

#[test]
fn resize_resets_to_sentinels_and_clear_preserves_dimensions() {
    let mut draw = DrawBuffer::new(vec![7u32; 4 * 4], 4, 4);
    let mut depth = DepthBuffer::new(vec![5i64; 4 * 4], 4, 4);

    // A dimension change reallocates and resets to the sentinel.
    draw.handle_clear(8, 2, Color::new(9, 9, 9, 9));
    assert_eq!(draw.buffer_width(), 8);
    assert_eq!(draw.buffer_height(), 2);
    assert!(draw.buffer().iter().all(|&p| p == 0));

    depth.handle_clear(8, 2);
    assert_eq!(depth.buffer_width(), 8);
    assert_eq!(depth.buffer_height(), 2);
    assert!(depth.buffer().iter().all(|&d| d == ONE));

    // Clearing without a resize keeps the dimensions and writes the
    // clear color in place.
    let bg = Color::new(1, 2, 3, 0);
    draw.handle_clear(8, 2, bg);
    assert_eq!(draw.buffer_width(), 8);
    assert_eq!(draw.buffer_height(), 2);
    assert!(draw.buffer().iter().all(|&p| p == bg.format_as_u32()));
}

#[test]
fn a_normal_facing_away_gets_the_ambient_floor() {
    let mut r = fresh_rasterizer(8, 8);
    let color = Color::new(200, 100, 40, 255);
    let a = ScreenVertex { x: 1, y: 1, z: ONE / 2 };
    let b = ScreenVertex { x: 6, y: 1, z: ONE / 2 };
    let c = ScreenVertex { x: 1, y: 6, z: ONE / 2 };
    let away = Vec4::new(0, 0, -ONE, 0);
    r.fill_triangle(a, b, c, away, away, away, color);
    // Intensity is floored at a tenth: each channel scales by
    // (ONE / 10) / ONE, truncated.
    let tenth = ONE / 10;
    let expect = |ch: i64| ((ch * tenth) / ONE) as u32;
    let expected = (expect(200) << 16) | (expect(100) << 8) | expect(40);
    assert_eq!(r.draw_buffer.get(2, 2), expected);
}

#[test]
fn draw_scene_with_an_empty_mesh_changes_nothing() {
    let mesh = Mesh::new(vec![], vec![], vec![]).unwrap();
    let object = GameObject::new(0, identity_pose());
    let scene = Scene::new(vec![mesh], vec![object], test_camera(ONE / 16, 16 * ONE));
    let colors = vec![Color::new(50, 100, 150, 255)];
    let mut r = fresh_rasterizer(4, 4);
    r.draw_scene(&scene, &colors);
    for row in 0..4usize {
        for col in 0..4usize {
            assert_eq!(r.draw_buffer.get(row, col), 0);
            assert_eq!(r.depth_buffer.get(row, col), ONE);
        }
    }
}

#[test]
fn renderable_gate_accepts_a_good_scene_and_rejects_a_degenerate_one() {
    // The renderability test passes the scene the rendering test draws.
    let mesh = Mesh::new(
        vec![
            Vec4::new(-ONE / 2, -ONE / 2, -2 * ONE, ONE),
            Vec4::new(ONE / 2, -ONE / 2, -2 * ONE, ONE),
            Vec4::new(-ONE / 2, ONE / 2, -2 * ONE, ONE),
        ],
        vec![],
        vec![0, 1, 2],
    )
    .unwrap();
    let good = Scene::new(
        vec![mesh],
        vec![GameObject::new(0, identity_pose())],
        test_camera(ONE / 16, 16 * ONE),
    );
    assert!(scene_renderable_check(&good, 16, 16));

    // A zero-area triangle in a mesh without normals has no face normal
    // to shade with, so such a scene is refused rather than rendered
    // outside the renderer's contract.
    let degenerate_mesh = Mesh::new(
        vec![
            Vec4::new(0, 0, -2 * ONE, ONE),
            Vec4::new(0, 0, -2 * ONE, ONE),
            Vec4::new(0, 0, -2 * ONE, ONE),
        ],
        vec![],
        vec![0, 1, 2],
    )
    .unwrap();
    let degenerate = Scene::new(
        vec![degenerate_mesh],
        vec![GameObject::new(0, identity_pose())],
        test_camera(ONE / 16, 16 * ONE),
    );
    assert!(!scene_renderable_check(&degenerate, 16, 16));

    // A camera with the near plane at or past the far plane is rejected.
    let mesh2 = Mesh::new(vec![], vec![], vec![]).unwrap();
    let bad_camera = Scene::new(
        vec![mesh2],
        vec![GameObject::new(0, identity_pose())],
        test_camera(16 * ONE, ONE),
    );
    assert!(!scene_renderable_check(&bad_camera, 16, 16));
}

#[test]
fn palette_colors_cycle_by_triangle_index() {
    // Two disjoint triangles in one mesh, two palette entries: the first
    // triangle takes the first color, the second the second.
    let mesh = Mesh::new(
        vec![
            Vec4::new(-ONE / 2, -ONE / 2, -2 * ONE, ONE),
            Vec4::new(ONE / 2, -ONE / 2, -2 * ONE, ONE),
            Vec4::new(-ONE / 2, 0, -2 * ONE, ONE),
            Vec4::new(-ONE / 2, 0, -2 * ONE, ONE),
            Vec4::new(ONE / 2, 0, -2 * ONE, ONE),
            Vec4::new(-ONE / 2, ONE / 2, -2 * ONE, ONE),
        ],
        vec![],
        vec![0, 1, 2, 3, 4, 5],
    )
    .unwrap();
    let scene = Scene::new(
        vec![mesh],
        vec![GameObject::new(0, identity_pose())],
        test_camera(ONE / 16, 16 * ONE),
    );
    let colors = vec![Color::new(200, 0, 0, 255), Color::new(0, 200, 0, 255)];
    assert!(scene_renderable_check(&scene, 16, 16));
    let mut r = fresh_rasterizer(16, 16);
    r.draw_scene(&scene, &colors);
    // A pixel in the lower triangle carries the first color, one in the
    // upper triangle the second (both fully lit by their face normals).
    assert_eq!(r.draw_buffer.get(6, 7), colors[0].format_as_u32());
    assert_eq!(r.draw_buffer.get(8, 7), colors[1].format_as_u32());
}

#[test]
fn draw_scene_renders_a_visible_triangle() {
    let mesh = Mesh::new(
        vec![
            Vec4::new(-ONE / 2, -ONE / 2, -2 * ONE, ONE),
            Vec4::new(ONE / 2, -ONE / 2, -2 * ONE, ONE),
            Vec4::new(-ONE / 2, ONE / 2, -2 * ONE, ONE),
        ],
        vec![],
        vec![0, 1, 2],
    )
    .unwrap();
    let object = GameObject::new(0, identity_pose());
    let camera = test_camera(ONE / 16, 16 * ONE);
    let scene = Scene::new(vec![mesh], vec![object], camera);
    let colors = vec![Color::new(50, 100, 150, 255)];

    let mut r = fresh_rasterizer(16, 16);
    r.draw_scene(&scene, &colors);

    // The triangle spans screen x in [6, 10), y in [6, 10) on its
    // counter-clockwise half; a pixel near the right-angle corner is
    // covered, fully lit (face normal points at the camera).
    assert_eq!(r.draw_buffer.get(7, 7), colors[0].format_as_u32());
    assert!(r.depth_buffer.get(7, 7) < ONE);
    // A pixel far outside stays at the background.
    assert_eq!(r.draw_buffer.get(15, 15), 0);
    assert_eq!(r.depth_buffer.get(15, 15), ONE);
}
