//! The two controllers: first-person free look, and orbit around a target.

pub mod fps;
pub mod orbit;
