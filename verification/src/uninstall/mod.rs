//! Removing the product from a machine.

pub mod coverage;
pub mod effects;
pub mod flow;
pub mod inventory;
pub mod plan;
pub mod remove;
pub mod render;
