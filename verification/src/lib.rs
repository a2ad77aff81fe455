//! A verified core for a 2D "particle life" simulation.
//!
//! The population is partitioned into kinds; each ordered pair of kinds has a
//! signed attraction, and each unordered pair a repel distance and an
//! influence radius.  One tick accumulates pairwise forces and then
//! integrates positions with boundary wrapping or reflection.  A bounded,
//! round-tagged channel decouples the simulation producer from a rendering
//! consumer; stale frames from an earlier round are never delivered.
//!
//! All quantities are fixed-point integers (see [`fx`]), so every step of the
//! simulation is a pure, verified function of its inputs.

pub mod channel;
pub mod producer;
pub mod fx;
pub mod rng;
pub mod kinds;
pub mod settings;
pub mod sim;

pub use fx::SCALE;
pub use fx::FX_MAX;
pub use fx::FX_MIN;
