//! Control logic for an analog (Hall-effect) keyboard matrix.
//!
//! Each scan tick turns 80 multiplexed per-key depth readings (millivolts)
//! into a HID usage report: sample intake with polarity correction and a
//! noise gate, adaptive per-key baseline calibration, directional-hysteresis
//! ("rapid trigger") actuation, opposing-direction (SOCD) conflict
//! resolution, layer selection, and deterministic report assembly.
//!
//! Hardware concerns (ADC conversion, multiplexer pins, USB transport,
//! timers) live outside this crate; the pipeline here is a pure function of
//! the readings it is handed.

pub mod actuation;
pub mod calibrate;
pub mod channel;
pub mod config;
pub mod intake;
pub mod keystate;
pub mod layer;
pub mod pipeline;
pub mod report;
pub mod socd;
