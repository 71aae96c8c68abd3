use rasterizer::color::Color;
use rasterizer::fixed::ONE;
use rasterizer::mesh::{GeometryError, Mesh};
use rasterizer::point::Point;
use rasterizer::triangle::Triangle;
use rasterizer::vec4::Vec4;

#[test]
fn color_packs_channels() {
    let c = Color::new(0x12, 0x34, 0x56, 0xff);
    assert_eq!(c.format_as_u32(), 0x0012_3456);
    assert_eq!(c.r(), 0x12);
    assert_eq!(c.g(), 0x34);
    assert_eq!(c.b(), 0x56);
    assert_eq!(c.a(), 0xff);
    assert_eq!(Color::new(255, 255, 255, 0).format_as_u32(), 0x00ff_ffff);
    assert_eq!(Color::new(0, 0, 0, 255).format_as_u32(), 0);
}

#[test]
fn color_mix_blends_linearly() {
    let a = Color::new(200, 100, 0, 7);
    let black = Color::new(0, 0, 0, 255);
    // Weight 0 keeps the first color; weight ONE takes the second.
    let keep = Color::mix(a, black, 0);
    assert_eq!((keep.r(), keep.g(), keep.b(), keep.a()), (200, 100, 0, 7));
    let full = Color::mix(a, black, ONE);
    assert_eq!((full.r(), full.g(), full.b(), full.a()), (0, 0, 0, 7));
    // Half weight truncates toward zero.
    let half = Color::mix(a, black, ONE / 2);
    assert_eq!((half.r(), half.g(), half.b()), (100, 50, 0));
    // The weight is clamped to the unit interval.
    let clamped = Color::mix(a, black, 10 * ONE);
    assert_eq!((clamped.r(), clamped.g(), clamped.b()), (0, 0, 0));
}

#[test]
fn point_accessors_round_trip() {
    let mut p = Point::new(1, -2, 3);
    assert_eq!((p.x(), p.y(), p.z()), (1, -2, 3));
    p.set_x(10);
    p.set_y(20);
    p.set_z(-30);
    assert_eq!((p.x(), p.y(), p.z()), (10, 20, -30));
}

#[test]
fn triangle_accessors_round_trip() {
    let a = Point::new(0, 0, 0);
    let b = Point::new(1, 0, 0);
    let c = Point::new(0, 1, 0);
    let mut t = Triangle::new(a, b, c);
    assert_eq!(t.a().x(), 0);
    assert_eq!(t.b().x(), 1);
    assert_eq!(t.c().y(), 1);
    t.set_a(Point::new(5, 5, 5));
    t.set_b(Point::new(6, 6, 6));
    t.set_c(Point::new(7, 7, 7));
    assert_eq!((t.a().x(), t.b().y(), t.c().z()), (5, 6, 7));
}

#[test]
fn vec4_algebra_exact_values() {
    let x = Vec4::new(ONE, 0, 0, 0);
    let y = Vec4::new(0, ONE, 0, 0);
    // Unit dot products.
    assert_eq!(x.dot(x), ONE);
    assert_eq!(x.dot(y), 0);
    // Cross of the x and y axes is the z axis.
    let z = x.cross(y);
    assert_eq!((z.x, z.y, z.z, z.w), (0, 0, ONE, 0));
    // 3-4-5 magnitude.
    let v = Vec4::new(3 * ONE, 4 * ONE, 0, 0);
    assert_eq!(v.magnitude(), 5 * ONE);
    assert_eq!(v.magnitude_squared(), 25 * ONE);
    let n = v.norm();
    assert_eq!(n.x, 3 * ONE / 5);
    assert_eq!(n.y, 4 * ONE / 5);
    // Componentwise arithmetic.
    let s = x.add(y).sub(Vec4::new(0, 0, ONE, 0)).neg();
    assert_eq!((s.x, s.y, s.z, s.w), (-ONE, -ONE, ONE, 0));
    let d = Vec4::new(6 * ONE, 2 * ONE, 0, 0).div(2 * ONE);
    assert_eq!((d.x, d.y), (3 * ONE, ONE));
    let m = Vec4::new(3 * ONE, -ONE, 0, 0).scale(ONE / 2);
    assert_eq!((m.x, m.y), (3 * ONE / 2, -ONE / 2));
}

#[test]
fn mesh_rejects_malformed_geometry() {
    let v = vec![Vec4::new(0, 0, 0, ONE), Vec4::new(ONE, 0, 0, ONE), Vec4::new(0, ONE, 0, ONE)];
    // Not whole triangles.
    let r = Mesh::new(v.clone(), vec![], vec![0, 1]);
    assert!(matches!(r, Err(GeometryError::IndicesNotTriples)));
    // An index out of range.
    let r = Mesh::new(v.clone(), vec![], vec![0, 1, 3]);
    assert!(matches!(r, Err(GeometryError::IndexOutOfRange)));
    // Normals present but not one per vertex.
    let r = Mesh::new(v.clone(), vec![Vec4::new(0, 0, ONE, 7)], vec![0, 1, 2]);
    assert!(matches!(r, Err(GeometryError::NormalCountMismatch)));
    // Valid geometry passes.
    let m = Mesh::new(v, vec![], vec![0, 1, 2]).unwrap();
    assert_eq!(m.indices.len(), 3);
    assert_eq!(m.normals.len(), 0);
}
