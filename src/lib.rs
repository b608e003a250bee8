//! Structure of a constrained pendulum chain: how the bodies' generalized
//! coordinates are laid out, how the system's columns and stacked vectors are
//! assembled from per-body contributions, how wall-clock frame time is turned
//! into fixed-size simulation steps, and a bounded history of recent values.

pub mod layout;
pub mod budget;
pub mod history;
pub mod spring;
