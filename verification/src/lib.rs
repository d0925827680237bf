//! Host-side controller logic for an automated plant-watering rig.
//!
//! The library decides and the caller acts: nothing here opens a port, reads a clock
//! or touches a file. Every quantity that the rig measures is an integer in
//! thousandths of its unit, so that all decisions are exact, and every time is in
//! milliseconds.
//!
//! - [`serial_manager`]: the command and response protocol of the microcontroller.
//! - [`balanzas`]: the scales, from raw readings to statistics and weights.
//! - [`watering_schedule`]: the goals of each pot over time.
//! - [`watering_position`] and [`intensity_config`]: where and how hard to water, and
//!   the shortest route over several pots.
//! - [`systems`]: the rig as a whole, tick by tick.
//! - [`decimal`], [`rounding`] and [`utils`]: text, arithmetic and time stamps.

pub mod balanzas;
pub mod decimal;
pub mod intensity_config;
pub mod rounding;
pub mod serial_manager;
pub mod systems;
pub mod utils;
pub mod watering_position;
pub mod watering_schedule;
