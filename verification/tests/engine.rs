use nbody_core::driver::{num_batches, Driver, DriverAction};
use nbody_core::frames::FrameBuffer;
use nbody_core::particle::{Particle, ParticleStore, Vec3Bits};
use nbody_core::settings::Settings;

fn v3(x: f32, y: f32, z: f32) -> Vec3Bits {
    Vec3Bits { x: x.to_bits(), y: y.to_bits(), z: z.to_bits() }
}

#[test]
fn default_settings_match_the_stock_run() {
    let s = Settings::default();
    assert_eq!(s.num_particles, 12000);
    assert_eq!(s.frames_total, 10000);
    assert_eq!(s.frames_per_file, 100);
    assert_eq!(s.dt, (1.0f32 / 180.0f32).to_bits());
    assert_eq!(s.arena, 100.0f32.to_bits());
    assert_eq!(s.g_const, 0.01f32.to_bits());
    assert_eq!(s.mass, 1000.0f32.to_bits());
    assert_eq!(s.init_vel, 4.5f32.to_bits());
    assert!(s.is_valid());
}

#[test]
fn settings_validity_rejects_degenerate_runs() {
    let mut s = Settings::default();
    s.num_particles = 0;
    assert!(!s.is_valid());
    let mut s = Settings::default();
    s.frames_per_file = 0;
    assert!(!s.is_valid());
}

#[test]
fn zero_particle_is_at_rest_with_unit_mass() {
    let p = Particle::new_zero();
    assert_eq!(p.mass, 1.0f32.to_bits());
    assert_eq!(p.pos, v3(0.0, 0.0, 0.0));
    assert_eq!(p.vel, v3(0.0, 0.0, 0.0));
    assert_eq!(p.acc, v3(0.0, 0.0, 0.0));
}

#[test]
fn particle_store_snapshot_and_write_back() {
    let a = Particle::new(1000.0f32.to_bits(), v3(-1.0, 0.0, 0.0), v3(0.0, 0.0, 0.0), v3(0.0, 0.0, 0.0));
    let b = Particle::new(1000.0f32.to_bits(), v3(1.0, 0.0, 0.0), v3(0.0, 0.0, 0.0), v3(0.0, 0.0, 0.0));
    let mut store = ParticleStore::new(vec![a, b]);
    assert_eq!(store.len(), 2);
    let snap = store.snapshot();
    assert_eq!(snap, vec![a, b]);
    assert_eq!(store.get(1), b);
    let moved = Particle::new(b.mass, v3(0.5, 0.0, 0.0), b.vel, b.acc);
    store.write_back(vec![a, moved]);
    assert_eq!(store.snapshot(), vec![a, moved]);
}

#[test]
fn frame_buffer_fills_flushes_and_reuses() {
    let mut buf = FrameBuffer::new(2, 3);
    assert!(!buf.is_full());
    assert_eq!(buf.len(), 0);
    let f0 = vec![v3(1.0, 0.0, 0.0), v3(2.0, 0.0, 0.0)];
    let f1 = vec![v3(3.0, 0.0, 0.0), v3(4.0, 0.0, 0.0)];
    let f2 = vec![v3(5.0, 0.0, 0.0), v3(6.0, 0.0, 0.0)];
    buf.push_frame(&f0);
    buf.push_frame(&f1);
    assert!(!buf.is_full());
    buf.push_frame(&f2);
    assert!(buf.is_full());
    let mut flat = Vec::new();
    flat.extend_from_slice(&f0);
    flat.extend_from_slice(&f1);
    flat.extend_from_slice(&f2);
    assert_eq!(buf.positions().clone(), flat);
    // The next batch reuses the storage in place.
    buf.reset();
    assert_eq!(buf.len(), 0);
    assert_eq!(buf.positions().clone(), flat);
    let g0 = vec![v3(7.0, 0.0, 0.0), v3(8.0, 0.0, 0.0)];
    buf.push_frame(&g0);
    assert_eq!(buf.len(), 1);
    let contents = buf.positions().clone();
    assert_eq!(&contents[0..2], &g0[..]);
    assert_eq!(&contents[2..6], &flat[2..6]);
}

#[test]
fn driver_truncates_trailing_frames() {
    assert_eq!(num_batches(10000, 100), 100);
    assert_eq!(num_batches(10, 3), 3);
    assert_eq!(num_batches(2, 3), 0);
    assert_eq!(num_batches(0, 5), 0);
}

#[test]
fn driver_sequences_batches_of_frames() {
    let mut d = Driver::new(10, 3);
    let mut frames = 0usize;
    let mut flushes = 0usize;
    loop {
        match d.next_action() {
            DriverAction::ComputeFrame => {
                d.frame_recorded();
                frames += 1;
            }
            DriverAction::FlushBatch => {
                d.batch_flushed();
                flushes += 1;
            }
            DriverAction::Done => break,
        }
        assert!(frames <= 9 && flushes <= 3);
    }
    // 10 frames in batches of 3: the tenth frame is never produced.
    assert_eq!(frames, 9);
    assert_eq!(flushes, 3);
    assert_eq!(d.batches_flushed(), 3);
}

#[test]
fn driver_of_empty_run_is_done_at_once() {
    let d = Driver::new(2, 3);
    assert_eq!(d.next_action(), DriverAction::Done);
}
