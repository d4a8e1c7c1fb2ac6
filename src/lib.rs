//! An air traffic control simulator's core: aircraft that follow commanded
//! headings, altitudes and speeds, capture a runway's localizer, land, and
//! leave the world; with the controller's command line that drives them.
//!
//! Quantities are integers: bearings in whole degrees, positions in
//! millimetres, time in microseconds, altitudes in feet, speeds in knots.
pub mod aircraft;
pub mod atc;
pub mod cardinal;
pub mod command;
pub mod geo;
pub mod geom;
pub mod math;
pub mod msfs_integration;
pub mod text;
pub mod world;
