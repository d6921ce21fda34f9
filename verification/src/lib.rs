//! A small celestial simulation kept in exact integer arithmetic: a tree of
//! orbiting bodies, a vessel that flies, docks and undocks, and the cargo it
//! carries.
//!
//! Lengths are counted in millionths of a distance unit and angles in
//! microradians, so every rule of the simulation is a statement about
//! integers. Nothing here draws, reads a device or resolves a transform:
//! the embedding program reports world positions and headings to the
//! library and shows what the library computes.

pub mod cargo;
pub mod controller;
pub mod docking;
pub mod hierarchy;
pub mod orbit;
pub mod space;
pub mod tick;
pub mod ui;
pub mod universe;
