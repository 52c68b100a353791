//! Verified core of a night-vision display utility.
//!
//! The crate holds the colour-adjustment pipeline: the monitor directory, the
//! brightness sampler, the gamma-ramp and colour-matrix strategies and the
//! adjustment controllers. Every fraction (an intensity, a brightness, a matrix
//! entry) is a fixed-point integer counted in millionths, see [`fixed::ONE`].
//! The platform calls themselves are left to the host application, which
//! performs what the controllers ask for and reports back how it went.

pub mod error;
pub mod fixed;
pub mod gamma;
pub mod sensor;
pub mod magnification;
pub mod icc_profile;
