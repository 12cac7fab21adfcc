//! An artificial-life simulation: agents ("boops") roam a continuous 2D
//! arena, each steered by a small recurrent neural network whose wiring is
//! decoded from a packed genetic encoding.
//!
//! All scalar quantities (signals, synaptic weights, coordinates, angles)
//! are fixed-point integers scaled by [`fixed::ONE`], so that every piece of
//! arithmetic in the library can be reasoned about exactly.

pub mod being;
pub mod boop;
pub mod fixed;
pub mod geo;
pub mod gene;
pub mod neural;
pub mod rng;
pub mod sim;
pub mod signal;
pub mod trig;
pub mod world;
