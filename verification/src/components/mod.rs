//! The data attached to a module: where it sits, what it holds, what it does.

pub mod display;
pub mod energy;
pub mod kind;
pub mod markers;
pub mod position;
pub mod processing;
pub mod storage;
