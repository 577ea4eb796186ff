//! Process-level state the runtime keeps: the environment-variable
//! store.

pub mod env;
