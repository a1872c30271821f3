//! Core of a bowling scene: the fixed-timestep clock, the rigid-body registry and
//! scene layout, the per-object resource pools and the input mapping.
pub mod clock;
pub mod input;
pub mod pool;
pub mod registry;
pub mod scene;
