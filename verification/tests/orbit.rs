//! A circular-orbit run: a satellite around a heavy body fixed at the
//! origin, launched at the analytically correct orbital speed, must stay
//! at its radius within bounded drift.  Every step's frame runs through
//! the library's frame buffer and compressed batch pipeline, and the
//! check reads the decoded output.

use nbody_core::frames::FrameBuffer;
use nbody_core::particle::Vec3Bits;
use nbody_core::sink::{compress_batch, read_batch};

const EPSILON_SQ: f32 = 1e-8;

#[test]
fn circular_orbit_keeps_its_radius() {
    let g_const = 0.01f32;
    let central_mass = 1000.0f32;
    let sat_mass = 1.0f32;
    let radius = 1.0f32;
    let dt = 1.0f32 / 180.0;
    // v = sqrt(G M / r) for a circular orbit; about 2 periods of steps.
    let speed = (g_const * central_mass / radius).sqrt();
    let steps_per_batch = 72usize;
    let batches = 10usize;

    let mut pos = [radius, 0.0f32, 0.0];
    let mut vel = [0.0f32, speed, 0.0];

    let mut buffer = FrameBuffer::new(1, steps_per_batch);
    let mut artifacts: Vec<Vec<u8>> = Vec::new();

    for _ in 0..batches {
        for _ in 0..steps_per_batch {
            // Gravity from the fixed central body, softened as in the
            // engine's force law.
            let r_sq = (pos[0] * pos[0] + pos[1] * pos[1] + pos[2] * pos[2]).max(EPSILON_SQ);
            let k = g_const * central_mass * sat_mass / (r_sq * r_sq.sqrt());
            let force = [-pos[0] * k, -pos[1] * k, -pos[2] * k];
            for c in 0..3 {
                let acc = force[c] / sat_mass;
                vel[c] += acc * dt;
                pos[c] += vel[c] * dt;
            }
            let frame = vec![Vec3Bits {
                x: pos[0].to_bits(),
                y: pos[1].to_bits(),
                z: pos[2].to_bits(),
            }];
            buffer.push_frame(&frame);
        }
        assert!(buffer.is_full());
        artifacts.push(compress_batch(steps_per_batch as u32, 1, buffer.positions()));
        buffer.reset();
    }

    // Every recorded position, read back through the inverse of the
    // format, stays near the orbital radius.
    let mut checked = 0usize;
    for artifact in &artifacts {
        let batch = read_batch(artifact).expect("round trip");
        assert_eq!(batch.frames_per_file, steps_per_batch as u32);
        assert_eq!(batch.num_particles, 1);
        for p in &batch.positions {
            let x = f32::from_bits(p.x);
            let y = f32::from_bits(p.y);
            let z = f32::from_bits(p.z);
            let r = (x * x + y * y + z * z).sqrt();
            assert!((r - radius).abs() < 0.05 * radius);
            checked += 1;
        }
    }
    assert_eq!(checked, steps_per_batch * batches);
}
