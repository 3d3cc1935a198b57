//! A two-particle scenario: equal masses at (-1,0,0) and (1,0,0) at rest
//! attract each other along the x-axis.  The pairwise law and the
//! semi-implicit Euler step are computed here exactly as the engine's
//! embedding computes them, and the resulting frame is pushed through the
//! library's buffer, serializer and compressor, which must reproduce the
//! motion bit for bit.

use nbody_core::frames::FrameBuffer;
use nbody_core::pairs::enumerate_pairs;
use nbody_core::particle::Vec3Bits;
use nbody_core::sink::{compress_batch, read_batch};

const EPSILON_SQ: f32 = 1e-8;

fn influence(
    g_const: f32,
    pos_a: [f32; 3],
    mass_a: f32,
    pos_b: [f32; 3],
    mass_b: f32,
) -> [f32; 3] {
    let r = [pos_b[0] - pos_a[0], pos_b[1] - pos_a[1], pos_b[2] - pos_a[2]];
    let r_sq = (r[0] * r[0] + r[1] * r[1] + r[2] * r[2]).max(EPSILON_SQ);
    let k = g_const * mass_a * mass_b / (r_sq * r_sq.sqrt());
    [r[0] * k, r[1] * k, r[2] * k]
}

fn euler_step(pos: &mut [f32; 3], vel: &mut [f32; 3], force: [f32; 3], mass: f32, dt: f32) {
    for c in 0..3 {
        let acc = force[c] / mass;
        vel[c] += acc * dt;
        pos[c] += vel[c] * dt;
    }
}

#[test]
fn two_body_step_serializes_exactly() {
    let g_const = 0.01f32;
    let dt = 1.0f32 / 180.0;
    let mass = 1000.0f32;
    let mut pos = [[-1.0f32, 0.0, 0.0], [1.0f32, 0.0, 0.0]];
    let mut vel = [[0.0f32; 3]; 2];

    // One force pass over the pair list, Newton's third law applied.
    let mut force = [[0.0f32; 3]; 2];
    for (i, j) in enumerate_pairs(2) {
        let f = influence(g_const, pos[i], mass, pos[j], mass);
        for c in 0..3 {
            force[i][c] += f[c];
            force[j][c] -= f[c];
        }
    }

    // With separation 2 and softening below reach: |F| = G m^2 r / r^3
    // = 0.01 * 1000 * 1000 * 2 / 8 = 2500, along +x on A and -x on B.
    assert_eq!(force[0], [2500.0, 0.0, 0.0]);
    assert_eq!(force[1], [-2500.0, 0.0, 0.0]);

    for p in 0..2 {
        let f = force[p];
        euler_step(&mut pos[p], &mut vel[p], f, mass, dt);
    }

    // Both particles moved toward each other along x, by the same amount.
    assert!(pos[0][0] > -1.0 && pos[1][0] < 1.0);
    assert_eq!(pos[0][0] + 1.0, -(pos[1][0] - 1.0));
    assert_eq!(pos[0][1], 0.0);
    assert_eq!(pos[0][2], 0.0);
    // The integration formula, written out: acc = 2.5, vel = acc * dt,
    // x = -1 + vel * dt.
    let expected_vel = 2.5f32 * dt;
    let expected_x = -1.0f32 + expected_vel * dt;
    assert_eq!(vel[0][0], expected_vel);
    assert_eq!(pos[0][0], expected_x);

    // The frame goes through the buffer, the serializer and the
    // compressor, and comes back bit for bit.
    let frame: Vec<Vec3Bits> = pos
        .iter()
        .map(|p| Vec3Bits { x: p[0].to_bits(), y: p[1].to_bits(), z: p[2].to_bits() })
        .collect();
    let mut buf = FrameBuffer::new(2, 1);
    buf.push_frame(&frame);
    assert!(buf.is_full());
    let artifact = compress_batch(1, 2, buf.positions());
    let back = read_batch(&artifact).expect("round trip");
    assert_eq!(back.frames_per_file, 1);
    assert_eq!(back.num_particles, 2);
    assert_eq!(back.positions, frame);
    assert_eq!(f32::from_bits(back.positions[0].x), expected_x);
    assert_eq!(f32::from_bits(back.positions[1].x), -expected_x);
}
