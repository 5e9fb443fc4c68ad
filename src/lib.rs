//! Conversion of a legacy mod tree into the Cobalt patch layout: the file
//! classifier, the path remapper and the planner that drives a run.
pub mod error;
pub mod extract;
pub mod gamedata;
pub mod layout;
pub mod model;
pub mod plan;
pub mod text;
