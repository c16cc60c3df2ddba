//! Packed retry status: the state of a fixed number of independent subtasks,
//! three bits each, kept in one 32-bit word together with a completion flag.

pub mod layout;
pub mod model;
pub mod status;
pub mod laws;
