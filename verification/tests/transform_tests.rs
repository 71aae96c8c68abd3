use rasterizer::camera::Camera;
use rasterizer::fixed::ONE;
use rasterizer::matrices::{Matrix4x4, ModelMatrix, TrigAngles};
use rasterizer::vec4::Vec4;

fn identity_pose() -> ModelMatrix {
    ModelMatrix::new(
        Vec4::new(0, 0, 0, ONE),
        Vec4::new(0, 0, 0, 0),
        TrigAngles::zero_angles(),
        Vec4::new(ONE, ONE, ONE, 0),
    )
}

fn matrices_equal(a: &Matrix4x4, b: &Matrix4x4) -> bool {
    a.m00 == b.m00 && a.m01 == b.m01 && a.m02 == b.m02 && a.m03 == b.m03 && a.m10 == b.m10
        && a.m11 == b.m11 && a.m12 == b.m12 && a.m13 == b.m13 && a.m20 == b.m20 && a.m21 == b.m21
        && a.m22 == b.m22 && a.m23 == b.m23 && a.m30 == b.m30 && a.m31 == b.m31 && a.m32 == b.m32
        && a.m33 == b.m33
}

#[test]
fn identity_pose_gives_identity_transforms() {
    let pose = identity_pose();
    let id = Matrix4x4::identity();
    let model = pose.get_model_matrix();
    let view = pose.get_view_matrix();
    assert!(matrices_equal(&model, &id));
    assert!(matrices_equal(&view, &id));
    let composed = view.mul(model);
    assert!(matrices_equal(&composed, &id));
}

#[test]
fn model_matrix_applies_scale_and_translation() {
    let mut pose = identity_pose();
    pose.update_scale(Vec4::new(2 * ONE, 3 * ONE, 4 * ONE, 0));
    pose.update_translate(Vec4::new(10 * ONE, 20 * ONE, 30 * ONE, ONE));
    let m = pose.get_model_matrix();
    let p = m.mul_vec(Vec4::new(ONE, ONE, ONE, ONE));
    assert_eq!((p.x, p.y, p.z, p.w), (12 * ONE, 23 * ONE, 34 * ONE, ONE));
    assert!(pose.inverse_needed_for_normals());
    pose.update_scale(Vec4::new(2 * ONE, 2 * ONE, 2 * ONE, 0));
    assert!(!pose.inverse_needed_for_normals());
}

#[test]
fn view_matrix_undoes_translation() {
    let mut pose = identity_pose();
    pose.update_translate(Vec4::new(5 * ONE, -7 * ONE, 2 * ONE, ONE));
    let view = pose.get_view_matrix();
    let eye = view.mul_vec(Vec4::new(5 * ONE, -7 * ONE, 2 * ONE, ONE));
    assert_eq!((eye.x, eye.y, eye.z, eye.w), (0, 0, 0, ONE));
}

#[test]
fn projection_maps_near_and_far_planes_to_depth_range() {
    // tan(fov/2) = 1, aspect 1, near 1, far 2.
    let cam = Camera::new(identity_pose(), 102944, ONE, ONE, ONE, 2 * ONE);
    let proj = cam.get_projection_matrix();
    assert_eq!(proj.m00, ONE);
    assert_eq!(proj.m11, ONE);
    assert_eq!(proj.m22, -3 * ONE);
    assert_eq!(proj.m23, -4 * ONE);
    assert_eq!(proj.m32, -ONE);

    // A point on the near plane maps to clip z == -w (ndc z == -1).
    let near_point = proj.mul_vec(Vec4::new(0, 0, -ONE, ONE));
    assert_eq!(near_point.z, -near_point.w);
    assert_eq!(near_point.w, ONE);
    // A point on the far plane maps to clip z == +w (ndc z == +1).
    let far_point = proj.mul_vec(Vec4::new(0, 0, -2 * ONE, ONE));
    assert_eq!(far_point.z, far_point.w);
    assert_eq!(far_point.w, 2 * ONE);
}

#[test]
fn camera_view_matrix_matches_pose_view_matrix() {
    let mut pose = identity_pose();
    pose.update_translate(Vec4::new(ONE, 2 * ONE, 3 * ONE, ONE));
    let mut pose2 = identity_pose();
    pose2.update_translate(Vec4::new(ONE, 2 * ONE, 3 * ONE, ONE));
    let cam = Camera::new(pose, 102944, ONE, ONE, ONE, 2 * ONE);
    let a = cam.get_view_matrix();
    let b = pose2.get_view_matrix();
    assert!(matrices_equal(&a, &b));
}
