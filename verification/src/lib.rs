//! Decision core of an ant-colony foraging simulation.

pub mod agent;
pub mod cell;
pub mod food;
pub mod neighborhood;
pub mod trail;
