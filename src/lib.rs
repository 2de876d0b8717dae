//! Estimation, policy synthesis and hybrid control for a reaction-wheel
//! inverted pendulum, on fixed-point numbers.
//!
//! Every physical quantity is an `i64` in millionths of its unit
//! (see [`fixed::SCALE`]): an angle of `1_000_000` is one radian.
use vstd::prelude::*;

pub mod fixed;
pub mod angle;
pub mod discretizer;
pub mod matrix;
pub mod ekf;
pub mod controller;
pub mod policy;
pub mod control;
pub mod hardware;
pub mod frame;
pub mod model;
pub mod rng;
