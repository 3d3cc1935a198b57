use nbody_core::gpu::{pack_particles, unpack_forces, workgroup_count};
use nbody_core::particle::{Particle, Vec3Bits};

fn v3(x: f32, y: f32, z: f32) -> Vec3Bits {
    Vec3Bits { x: x.to_bits(), y: y.to_bits(), z: z.to_bits() }
}

#[test]
fn upload_records_match_the_kernel_layout() {
    let particles = vec![
        Particle::new(1000.0f32.to_bits(), v3(-1.0, 2.0, 3.5), v3(0.25, -0.5, 0.75), v3(0.0, 0.0, 0.0)),
        Particle::new(2.5f32.to_bits(), v3(4.0, 5.0, 6.0), v3(7.0, 8.0, 9.0), v3(1.0, 1.0, 1.0)),
    ];
    let bytes = pack_particles(&particles);
    assert_eq!(bytes.len(), 64);
    let mut expected = Vec::new();
    for fields in [
        [-1.0f32, 2.0, 3.5, 1000.0, 0.25, -0.5, 0.75, 0.0],
        [4.0f32, 5.0, 6.0, 2.5, 7.0, 8.0, 9.0, 0.0],
    ] {
        for f in fields {
            expected.extend_from_slice(&f.to_le_bytes());
        }
    }
    // Acceleration is host-side state and never travels to the device.
    assert_eq!(bytes, expected);
}

#[test]
fn empty_snapshot_packs_to_nothing() {
    assert_eq!(pack_particles(&vec![]), vec![]);
}

#[test]
fn readback_records_drop_their_padding_word() {
    let mut bytes = Vec::new();
    for fields in [[2500.0f32, 0.0, -1.25, 99.0], [-2500.0f32, 3.5, 0.0, -7.0]] {
        for f in fields {
            bytes.extend_from_slice(&f.to_le_bytes());
        }
    }
    let forces = unpack_forces(&bytes).expect("whole records");
    assert_eq!(forces, vec![v3(2500.0, 0.0, -1.25), v3(-2500.0, 3.5, 0.0)]);
}

#[test]
fn readback_of_ragged_buffer_is_rejected() {
    assert!(unpack_forces(&vec![0u8; 15]).is_none());
    assert!(unpack_forces(&vec![0u8; 17]).is_none());
    assert_eq!(unpack_forces(&vec![]).expect("empty is whole"), vec![]);
}

#[test]
fn workgroups_cover_all_particles() {
    assert_eq!(workgroup_count(0), 0);
    assert_eq!(workgroup_count(1), 1);
    assert_eq!(workgroup_count(63), 1);
    assert_eq!(workgroup_count(64), 1);
    assert_eq!(workgroup_count(65), 2);
    assert_eq!(workgroup_count(12000), 188);
}
