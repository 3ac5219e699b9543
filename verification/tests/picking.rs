use softraster::controls::{Action, Controls, KeySnapshot, SPEED};
use softraster::fixed::{fx_cos, fx_sin, FX_ONE};
use softraster::framebuffer::Framebuffer;
use softraster::matrix::Matrix;
use softraster::model::{Material, Mesh, Model, Vertex};
use softraster::object::Object;

fn idle_keys() -> KeySnapshot {
    KeySnapshot {
        forward: false,
        backward: false,
        rise: false,
        fall: false,
        strafe_left: false,
        strafe_right: false,
        look_left: false,
        look_right: false,
        look_up: false,
        look_down: false,
        mine: false,
        place: false,
    }
}

fn single_triangle_at_z(z: i64) -> Object {
    let vertices = vec![
        Vertex { position: [0, FX_ONE, z], normal: [0, 0, -FX_ONE], tex_coord: [0, 0] },
        Vertex { position: [-FX_ONE, -FX_ONE, z], normal: [0, 0, -FX_ONE], tex_coord: [0, 0] },
        Vertex { position: [FX_ONE, -FX_ONE, z], normal: [0, 0, -FX_ONE], tex_coord: [0, 0] },
    ];
    let mesh = Mesh { vertices, indices: vec![0, 1, 2], material_idx: 0 };
    let model = Model { meshes: vec![mesh], mats: vec![Material::default()] };
    Object::new(model, [0, 0, 0], [0, 0, 0], [FX_ONE, FX_ONE, FX_ONE])
}

fn buffers() -> (Framebuffer, Framebuffer) {
    let fb = Framebuffer::new(8, 8);
    let mut depth = Framebuffer::new(8, 8);
    depth.clear(u32::MAX);
    (fb, depth)
}

#[test]
fn ray_at_triangle_reports_distance_and_point() {
    let (mut fb, mut depth) = buffers();
    let obj = single_triangle_at_z(5 * FX_ONE);
    let mvp = Matrix::identity();
    // A ray from the origin along positive z meets the triangle at
    // z = 5: distance exactly 5 and the hit point on the plane.
    let (d, p) = obj.raycast(
        [0, 0, 0],
        [0, 0, FX_ONE],
        10 * FX_ONE,
        &mut fb,
        &mut depth,
        &mvp,
        false,
    );
    assert_eq!(d, 5 * FX_ONE);
    assert_eq!(p, [0, 0, 5 * FX_ONE]);
}

#[test]
fn ray_away_from_triangle_reports_no_hit() {
    let (mut fb, mut depth) = buffers();
    let obj = single_triangle_at_z(5 * FX_ONE);
    let mvp = Matrix::identity();
    let (d, p) = obj.raycast(
        [0, 0, 0],
        [0, 0, -FX_ONE],
        10 * FX_ONE,
        &mut fb,
        &mut depth,
        &mvp,
        false,
    );
    // No hit: the input maximum distance and the ray origin come back.
    assert_eq!(d, 10 * FX_ONE);
    assert_eq!(p, [0, 0, 0]);
}

#[test]
fn hit_distance_is_bounded_by_the_maximum() {
    let (mut fb, mut depth) = buffers();
    let obj = single_triangle_at_z(5 * FX_ONE);
    let mvp = Matrix::identity();
    let (d, _) = obj.raycast(
        [0, 0, 0],
        [0, 0, FX_ONE],
        2 * FX_ONE,
        &mut fb,
        &mut depth,
        &mvp,
        false,
    );
    // The triangle lies beyond the maximum: treated as no hit.
    assert_eq!(d, 2 * FX_ONE);
}

#[test]
fn raycast_without_draw_leaves_buffers_untouched() {
    let (mut fb, mut depth) = buffers();
    let obj = single_triangle_at_z(5 * FX_ONE);
    let mvp = Matrix::identity();
    let fb_snap: Vec<u32> = fb.buffer().clone();
    let depth_snap: Vec<u32> = depth.buffer().clone();
    obj.raycast([0, 0, 0], [0, 0, FX_ONE], 10 * FX_ONE, &mut fb, &mut depth, &mvp, false);
    assert_eq!(fb.buffer(), &fb_snap);
    assert_eq!(depth.buffer(), &depth_snap);
}

#[test]
fn raycast_no_hit_draws_nothing() {
    let (mut fb, mut depth) = buffers();
    let obj = single_triangle_at_z(5 * FX_ONE);
    let mvp = Matrix::identity();
    let fb_snap: Vec<u32> = fb.buffer().clone();
    let depth_snap: Vec<u32> = depth.buffer().clone();
    obj.raycast([0, 0, 0], [0, 0, -FX_ONE], 10 * FX_ONE, &mut fb, &mut depth, &mvp, true);
    assert_eq!(fb.buffer(), &fb_snap);
    assert_eq!(depth.buffer(), &depth_snap);
}

#[test]
fn cube_constructor_shape() {
    let cube = Object::cube([0, 0, 0], [0, 0, 0], [FX_ONE; 3], None);
    assert_eq!(cube.model.meshes.len(), 1);
    assert_eq!(cube.model.mats.len(), 1);
    let mesh = &cube.model.meshes[0];
    assert_eq!(mesh.vertices.len(), 24);
    assert_eq!(mesh.indices.len(), 36);
    assert!(mesh.validate());
    for chunk in mesh.indices.chunks(6) {
        // Each face is two triangles over its own four corners.
        let base = chunk[0];
        assert_eq!(chunk, [base, base + 1, base + 2, base, base + 2, base + 3]);
    }
    // Every corner sits on the half-unit cube.
    for v in &mesh.vertices {
        for k in 0..3 {
            assert_eq!(v.position[k].abs(), FX_ONE / 2);
        }
    }
}

#[test]
fn controls_spawn_state() {
    let c = Controls::new();
    assert_eq!(c.pos, [0, 100 * FX_ONE, -360448]);
    assert_eq!(c.rot[1], 0);
    assert!(matches!(c.action, Action::No));
}

#[test]
fn controls_forward_moves_along_yaw() {
    let mut c = Controls::new();
    let before = c.pos;
    let mut keys = idle_keys();
    keys.forward = true;
    keys.mine = true;
    c.update(&keys, FX_ONE);
    // At yaw zero, forward moves along the cosine in z and the sine in x.
    let speedd = SPEED; // SPEED * 1.0 in fixed point
    let cosd = (fx_cos(0) as i128 * speedd as i128 / 65536) as i64;
    let sind = (fx_sin(0) as i128 * speedd as i128 / 65536) as i64;
    assert_eq!(c.pos[0], before[0] + sind);
    assert_eq!(c.pos[1], before[1]);
    assert_eq!(c.pos[2], before[2] + cosd);
    assert!(matches!(c.action, Action::Mining));
}

#[test]
fn controls_mining_wins_over_placing() {
    let mut c = Controls::new();
    let mut keys = idle_keys();
    keys.mine = true;
    keys.place = true;
    c.update(&keys, 0);
    assert!(matches!(c.action, Action::Mining));
    keys.mine = false;
    c.update(&keys, 0);
    assert!(matches!(c.action, Action::Placing));
    keys.place = false;
    c.update(&keys, 0);
    assert!(matches!(c.action, Action::No));
}
