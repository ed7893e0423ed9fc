//! Verified core of a Gray-Scott reaction-diffusion simulation.
//!
//! Concentrations are held in fixed-point micro-units: the integer value
//! `SCALE` stands for a concentration of one. The simulation state lives in
//! `ndarray` arrays; the stencil and update arithmetic are verified.

pub mod grid;
pub mod intensity;
pub mod laws;
pub mod params;
pub mod sim;
pub mod stencil;
pub mod update;
