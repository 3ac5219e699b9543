use softraster::fixed::{fx_add, fx_div, fx_mul, fx_sqrt, fx_sin, fx_cos, FX_MAX, FX_ONE};
use softraster::framebuffer::Framebuffer;
use softraster::matrix::Matrix;
use softraster::texture::Texture;

fn mat(rows: Vec<Vec<i64>>) -> Matrix {
    Matrix { rows }
}

/// `b / 255.99` in 16.16 fixed point, the texture byte scale.
fn byte_fx(b: u8) -> i64 {
    ((b as u64 * 6553600) / 25599) as i64
}

#[test]
fn fixed_point_basics() {
    assert_eq!(fx_add(FX_ONE, FX_ONE), 2 * FX_ONE);
    assert_eq!(fx_mul(3 * FX_ONE, 2 * FX_ONE), 6 * FX_ONE);
    assert_eq!(fx_div(FX_ONE, 2 * FX_ONE), 32768);
    assert_eq!(fx_div(FX_ONE, 0), 0);
    assert_eq!(fx_add(FX_MAX, FX_ONE), FX_MAX);
    assert_eq!(fx_sqrt(25 * FX_ONE), 5 * FX_ONE);
    assert_eq!(fx_sqrt(-FX_ONE), 0);
    assert_eq!(fx_sin(0), 0);
    // The quarter-turn points are exact.
    assert_eq!(fx_cos(0), FX_ONE);
    assert_eq!(fx_sin(102943), FX_ONE);
    assert_eq!(fx_sin(205887), 0);
    assert_eq!(fx_sin(308830), -FX_ONE);
    // Between quarter turns the rational approximation stays close.
    let s = fx_sin(34314); // 30 degrees
    assert!((s - 32768).abs() < 660, "sin(pi/6) was {s}");
}

#[test]
fn rotation_by_zero_angles_is_the_identity() {
    let m = Matrix::trans([7 * FX_ONE, -3 * FX_ONE, 12345]);
    let r = m.rotate([0, 0, 0]);
    for i in 0..4 {
        for j in 0..4 {
            assert_eq!(r.rows[i][j], Matrix::trans([7 * FX_ONE, -3 * FX_ONE, 12345]).rows[i][j]);
        }
    }
}

#[test]
fn determinant_of_identity_is_one() {
    let m = Matrix::identity();
    assert_eq!(m.det(), FX_ONE);
}

#[test]
fn determinant_of_identical_rows_vanishes() {
    let one = FX_ONE;
    let m = mat(vec![
        vec![1 * one, 2 * one, 3 * one, 4 * one],
        vec![1 * one, 2 * one, 3 * one, 4 * one],
        vec![5 * one, 6 * one, 7 * one, 9 * one],
        vec![9 * one, 10 * one, 12 * one, 12 * one],
    ]);
    let d = m.det();
    assert!(d.abs() < 655, "det of duplicate-row matrix was {d}");
}

#[test]
fn inverse_of_translation_round_trips_to_identity() {
    let m = Matrix::trans([1 * FX_ONE, 2 * FX_ONE, 3 * FX_ONE]);
    let inv = m.inverse();
    // Conventional product M x M^-1 in this pipeline's row-vector
    // encoding: `inv.mul(&m)` computes sum_k m[i][k] * inv[k][j].
    let prod = inv.mul(&m);
    for i in 0..4 {
        for j in 0..4 {
            let want = if i == j { FX_ONE } else { 0 };
            let got = prod.rows[i][j];
            assert!(
                (got - want).abs() <= 16,
                "cell ({i},{j}) was {got}, wanted about {want}"
            );
        }
    }
}

#[test]
fn inverse_of_scaling_round_trips_to_identity() {
    let m = Matrix::scaling([2 * FX_ONE, 4 * FX_ONE, 8 * FX_ONE]);
    let prod = m.inverse().mul(&m);
    for i in 0..4 {
        for j in 0..4 {
            let want = if i == j { FX_ONE } else { 0 };
            assert!((prod.rows[i][j] - want).abs() <= 16);
        }
    }
}

#[test]
fn singular_matrix_returns_augmented_result() {
    let m = mat(vec![
        vec![0, 0, 0, 0],
        vec![0, 0, 0, 0],
        vec![0, 0, 0, 0],
        vec![0, 0, 0, 0],
    ]);
    let inv = m.inverse();
    // No inverse exists: the partial augmented matrix comes back as is.
    assert_eq!(inv.rows.len(), 4);
    assert_eq!(inv.rows[0].len(), 8);
}

#[test]
fn transpose_flips_cells() {
    let m = Matrix::trans([5 * FX_ONE, 6 * FX_ONE, 7 * FX_ONE]);
    let t = m.transpose();
    for i in 0..4 {
        for j in 0..4 {
            assert_eq!(t.rows[i][j], m.rows[j][i]);
        }
    }
}

#[test]
fn framebuffer_set_get_clear() {
    let mut fb = Framebuffer::new(8, 4);
    assert_eq!(fb.width(), 8);
    assert_eq!(fb.height(), 4);
    assert_eq!(fb.get_pixel(3, 2), 0);
    fb.set_pixel(3, 2, 0xdeadbeef);
    assert_eq!(fb.get_pixel(3, 2), 0xdeadbeef);
    assert_eq!(fb.get_pixel(2, 3), 0);
    fb.clear(7);
    for x in 0..8 {
        for y in 0..4 {
            assert_eq!(fb.get_pixel(x, y), 7);
        }
    }
}

#[test]
fn texture_new_validates_shape() {
    assert!(Texture::new(vec![0u8; 12], 2, 2, 3).is_some());
    assert!(Texture::new(vec![0u8; 16], 2, 2, 4).is_some());
    assert!(Texture::new(vec![0u8; 12], 2, 2, 2).is_none());
    assert!(Texture::new(vec![0u8; 11], 2, 2, 3).is_none());
}

#[test]
fn texture_corner_reads_exact_corner_color() {
    // 2x2 texture with distinct corner colors, three channels.
    let data = vec![
        255, 0, 0, // top left: red
        0, 255, 0, // top right: green
        0, 0, 255, // bottom left: blue
        255, 255, 0, // bottom right: yellow
    ];
    let t = Texture::new(data, 2, 2, 3).unwrap();
    let px = t.get_pixel(0, 0);
    assert_eq!(px[0], byte_fx(255));
    assert_eq!(px[1], byte_fx(0));
    assert_eq!(px[2], byte_fx(0));
    assert_eq!(px[3], FX_ONE);
}

#[test]
fn texture_sample_blends_at_half() {
    let data = vec![255, 0, 0, 0, 255, 0, 0, 0, 255, 255, 255, 0];
    let t = Texture::new(data, 2, 2, 3).unwrap();
    // The wrap policy folds every tap of a 2x2 texture onto the first
    // texel (coordinates wrap modulo width - 1 = 1), so the bilinear
    // sample at the center equals that texel exactly.
    let s = t.sample_pixel(FX_ONE / 2, FX_ONE / 2);
    let c = t.get_pixel(0, 0);
    assert_eq!(s[0], c[0]);
    assert_eq!(s[1], c[1]);
    assert_eq!(s[2], c[2]);
    assert_eq!(s[3], c[3]);
}
