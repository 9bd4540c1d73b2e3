//! A rigid-body physics core on fixed-point numbers.

pub mod collisions;
pub mod components;
pub mod fixed;
pub mod laws;
pub mod random;
pub mod scene;
pub mod systems;
pub mod timer;
pub mod vector;
