//! The run configuration, immutable once loaded.
//!
//! The embedding program loads (or creates) the configuration and resolves
//! the output directory; the core only ever reads these values.  The five
//! physical quantities are single-precision values, carried as their bit
//! patterns.

use vstd::prelude::*;

verus! {

/// Bit pattern of `1.0 / 180.0`, the default time step in seconds.
pub const DEFAULT_DT_BITS: u32 = 0x3BB6_0B61;

/// Bit pattern of `100.0`, the default arena radius.
pub const DEFAULT_ARENA_BITS: u32 = 0x42C8_0000;

/// Bit pattern of `0.01`, the default gravitational constant.
pub const DEFAULT_G_CONST_BITS: u32 = 0x3C23_D70A;

/// Bit pattern of `1000.0`, the default particle mass.
pub const DEFAULT_MASS_BITS: u32 = 0x447A_0000;

/// Bit pattern of `4.5`, the default initial-velocity scale.
pub const DEFAULT_INIT_VEL_BITS: u32 = 0x4090_0000;

/// The run configuration.  `dt`, `arena`, `g_const`, `mass` and `init_vel`
/// hold single-precision bit patterns.
#[derive(Clone, Copy, PartialEq, Eq, Structural, Debug)]
pub struct Settings {
    pub num_particles: usize,
    pub frames_total: usize,
    pub frames_per_file: usize,
    pub dt: u32,
    pub arena: u32,
    pub g_const: u32,
    pub mass: u32,
    pub init_vel: u32,
}

/// A configuration makes sense for a run when the population is nonempty
/// and batches are nonempty.
pub open spec fn spec_settings_valid(s: Settings) -> bool {
    &&& s.num_particles >= 1
    &&& s.frames_per_file >= 1
}

impl Settings {
    /// Whether this configuration can drive a run.
    pub fn is_valid(&self) -> (r: bool)
        ensures
            r == spec_settings_valid(*self),
    {
        self.num_particles >= 1 && self.frames_per_file >= 1
    }
}

impl Default for Settings {
    /// The built-in configuration, used when none is supplied: 12000
    /// particles, 10000 frames in files of 100, a 180 Hz time step.
    fn default() -> (r: Settings)
        ensures
            r.num_particles == 12000,
            r.frames_total == 10000,
            r.frames_per_file == 100,
            r.dt == DEFAULT_DT_BITS,
            r.arena == DEFAULT_ARENA_BITS,
            r.g_const == DEFAULT_G_CONST_BITS,
            r.mass == DEFAULT_MASS_BITS,
            r.init_vel == DEFAULT_INIT_VEL_BITS,
            spec_settings_valid(r),
    {
        Settings {
            num_particles: 12000,
            frames_total: 10000,
            frames_per_file: 100,
            dt: DEFAULT_DT_BITS,
            arena: DEFAULT_ARENA_BITS,
            g_const: DEFAULT_G_CONST_BITS,
            mass: DEFAULT_MASS_BITS,
            init_vel: DEFAULT_INIT_VEL_BITS,
        }
    }
}

} // verus!
