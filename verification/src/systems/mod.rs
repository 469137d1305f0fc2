//! The passes that make up one simulation step.

pub mod energy;
pub mod processing;
pub mod batch;
pub mod sync;
pub mod module_logic;
