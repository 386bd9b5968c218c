//! Per-frame kernel of a small 2D combat sandbox: collision groups, the
//! collision-event harvester, player movement, creature patrol, combat
//! resolution and lifecycle passes, and the layout of the starting scene.
//!
//! Physical quantities are fixed-point integers. Lengths and positions are in
//! thousandths of a physics unit, velocities in thousandths of a unit per
//! second, masses in thousandths of a mass unit. Impulses and forces are in
//! the product units (millionths), so that an impulse divided by a mass is a
//! velocity in thousandths. Angular velocities are in millionths of a radian
//! per second, and times in microseconds.

pub mod groups;
pub mod events;
pub mod physics;
pub mod player;
pub mod patrol;
pub mod combat;
pub mod lifecycle;
pub mod layout;
