//! What follows from the step-by-step semantics for whole evaluations.

pub mod atoms;
pub mod builtins;
pub mod capture;
pub mod definitions;
pub mod handles;
pub mod order;
pub mod runs;
pub mod scope;
