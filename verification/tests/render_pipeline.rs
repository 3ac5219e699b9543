use softraster::draw::{clip_to_screen, draw_line, draw_triangle, edge, project, rgb_to_u32};
use softraster::fixed::FX_ONE;
use softraster::framebuffer::Framebuffer;
use softraster::matrix::Matrix;
use softraster::model::{Material, Vertex};
use softraster::object::Object;

fn white_material() -> Material {
    Material { base_col: [FX_ONE; 4], base_color_texture: None }
}

fn vert(p: [i64; 3], n: [i64; 3]) -> Vertex {
    Vertex { position: p, normal: n, tex_coord: [0, 0] }
}

fn buffers(w: usize, h: usize) -> (Framebuffer, Framebuffer) {
    let fb = Framebuffer::new(w, h);
    let mut depth = Framebuffer::new(w, h);
    depth.clear(u32::MAX);
    (fb, depth)
}

#[test]
fn projecting_view_axis_point_hits_center_pixel() {
    // 60 degree symmetric field of view, square aspect ratio.
    let proj = Matrix::projection(68629, FX_ONE, 6554, 300 * FX_ONE);
    let (ndc, _rec) = project(&[0, 0, 10 * FX_ONE], &proj);
    assert_eq!(ndc[0], 0);
    assert_eq!(ndc[1], 0);
    let screen = clip_to_screen([ndc[0], ndc[1]], [512 * FX_ONE, 512 * FX_ONE]);
    assert_eq!(screen[0], 256 * FX_ONE);
    assert_eq!(screen[1], 256 * FX_ONE);
}

#[test]
fn rasterizer_writes_exactly_the_edge_test_interior() {
    let (mut fb, mut depth) = buffers(16, 16);
    let ident = Matrix::identity();
    let half_z = FX_ONE / 2;
    let v0 = vert([0, -52429, half_z], [0, 0, -FX_ONE]);
    let v1 = vert([52429, 52429, half_z], [0, 0, -FX_ONE]);
    let v2 = vert([-52429, 52429, half_z], [0, 0, -FX_ONE]);
    let mat = white_material();
    draw_triangle(&mut fb, &mut depth, &v0, &v1, &v2, &ident, &ident, &mat);

    // Recompute the screen-space edge functions the same way the
    // rasterizer's contract pins them, and compare coverage.
    let size = [16 * FX_ONE, 16 * FX_ONE];
    let (p0, _) = project(&v0.position, &ident);
    let (p1, _) = project(&v1.position, &ident);
    let (p2, _) = project(&v2.position, &ident);
    let a = clip_to_screen([p0[0], p0[1]], size);
    let b = clip_to_screen([p1[0], p1[1]], size);
    let c = clip_to_screen([p2[0], p2[1]], size);
    let mut drawn = 0;
    for x in 0..16usize {
        for y in 0..16usize {
            let p = [x as i64 * FX_ONE, y as i64 * FX_ONE];
            let a0 = edge(&b, &c, &p);
            let a1 = edge(&c, &a, &p);
            let a2 = edge(&a, &b, &p);
            let inside = a0 < 0 && a1 < 0 && a2 < 0;
            let c = fb.get_pixel(x, y);
            assert_eq!(c != 0, inside, "pixel ({x},{y})");
            if inside {
                // White base, normal facing the camera: the light dot
                // is negative, so the ambient floor of 0.2 shades a
                // 51-gray exactly.
                assert_eq!(c, rgb_to_u32(51, 51, 51));
                drawn += 1;
            }
        }
    }
    assert!(drawn > 0, "the triangle must cover at least one pixel center");
}

#[test]
fn drawing_the_same_triangle_twice_changes_nothing() {
    let (mut fb, mut depth) = buffers(16, 16);
    let ident = Matrix::identity();
    let half_z = FX_ONE / 2;
    let v0 = vert([0, -52429, half_z], [0, 0, -FX_ONE]);
    let v1 = vert([52429, 52429, half_z], [0, 0, -FX_ONE]);
    let v2 = vert([-52429, 52429, half_z], [0, 0, -FX_ONE]);
    let mat = white_material();
    draw_triangle(&mut fb, &mut depth, &v0, &v1, &v2, &ident, &ident, &mat);
    let fb_snap: Vec<u32> = fb.buffer().clone();
    let depth_snap: Vec<u32> = depth.buffer().clone();
    draw_triangle(&mut fb, &mut depth, &v0, &v1, &v2, &ident, &ident, &mat);
    assert_eq!(fb.buffer(), &fb_snap);
    assert_eq!(depth.buffer(), &depth_snap);
}

#[test]
fn closer_triangle_wins_farther_triangle_loses() {
    let (mut fb, mut depth) = buffers(16, 16);
    let ident = Matrix::identity();
    let mat = white_material();
    let near = |z: i64| {
        [
            vert([0, -52429, z], [0, 0, -FX_ONE]),
            vert([52429, 52429, z], [0, 0, -FX_ONE]),
            vert([-52429, 52429, z], [0, 0, -FX_ONE]),
        ]
    };
    let front = near(FX_ONE / 4);
    let back = near(FX_ONE / 2);
    draw_triangle(&mut fb, &mut depth, &front[0], &front[1], &front[2], &ident, &ident, &mat);
    let snap: Vec<u32> = fb.buffer().clone();
    // Same footprint, strictly farther: the depth test rejects it all.
    draw_triangle(&mut fb, &mut depth, &back[0], &back[1], &back[2], &ident, &ident, &mat);
    assert_eq!(fb.buffer(), &snap);
}

#[test]
fn line_overlay_writes_only_the_debug_color() {
    let (mut fb, mut depth) = buffers(32, 32);
    let ident = Matrix::identity();
    draw_line(
        &mut fb,
        &mut depth,
        &[-32768, -32768, FX_ONE / 2],
        &[32768, 32768, FX_ONE / 2],
        &ident,
    );
    let mut red = 0;
    for x in 0..32usize {
        for y in 0..32usize {
            let c = fb.get_pixel(x, y);
            assert!(c == 0 || c == rgb_to_u32(255, 0, 0), "pixel ({x},{y}) was {c:#x}");
            if c != 0 {
                red += 1;
            }
        }
    }
    assert!(red > 0, "the line must touch at least one pixel");
}

#[test]
fn unit_cube_scene_shades_with_clamped_intensity() {
    // A white unit cube in front of a camera at the origin. The fixed
    // light direction dots any axis-aligned unit normal at 0.7 or
    // less, so the visible face shades either at its direct dot
    // product (the camera-side face: exactly 0.5, a 127-gray) or at
    // the 0.2 ambient floor (a 51-gray). Pixel centers on the quads'
    // shared diagonal are excluded by the strict edge test.
    let (mut fb, mut depth) = buffers(512, 512);
    let cube = Object::cube([0, 0, 5 * FX_ONE], [0, 0, 0], [FX_ONE; 3], None);
    let proj = Matrix::projection(68629, FX_ONE, 6554, 300 * FX_ONE);
    let view = Matrix::identity().rotate([0, 0, 0]).mul(&Matrix::trans([0, 0, 0]));
    let view_proj = proj.mul(&view);
    cube.render(&mut fb, &mut depth, &view_proj);
    let lit_gray = rgb_to_u32(127, 127, 127);
    let floor_gray = rgb_to_u32(51, 51, 51);
    let mut lit = 0u32;
    for x in 0..512usize {
        for y in 0..512usize {
            let c = fb.get_pixel(x, y);
            assert!(
                c == 0 || c == lit_gray || c == floor_gray,
                "pixel ({x},{y}) was {c:#x}"
            );
            if c == lit_gray {
                lit += 1;
            }
        }
    }
    assert!(lit > 1000, "the facing cube face must cover the screen center region");
    // A pixel safely inside the face and off the diagonal seam.
    assert_eq!(fb.get_pixel(250, 260), lit_gray);
}
