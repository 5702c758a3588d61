//! A deterministic camera-rig core: look transforms, yaw/pitch look angles,
//! first-person and orbit controllers and an exponential smoother, all computed
//! in saturating fixed-point arithmetic.

pub mod angle;
pub mod controllers;
pub mod look_angles;
pub mod look_transform;
pub mod scalar;
pub mod smoother;
pub mod vector;
