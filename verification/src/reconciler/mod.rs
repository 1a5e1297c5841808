//! Closing the gap between what is wanted and what the compositor reports.
pub mod plan;
pub mod plan_laws;
pub mod canvas;
pub mod canvas_laws;
pub mod command_laws;
pub mod apps;
pub mod adoption;
pub mod pass;
pub mod pass_laws;
