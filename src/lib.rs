//! A dependency-aware job scheduler: the job graph, the decisions of the
//! coordinating loop, and the decisions of the step runner.

pub mod graph;
pub mod laws;
pub mod scheduler;
pub mod steps;
