//! Generates C step functions from declarative finite-state machine descriptions.
//!
//! The library holds the machine model, the structural checks run on it, and
//! the generator that turns a Moore machine into a C header and source file.

pub mod state_machines;
pub mod checks;
pub mod c_generator;
pub mod files;
