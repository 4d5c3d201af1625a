//! The measured workloads: their data, their kernels, and the shape of a report.
pub mod cells;
pub mod laws;
pub mod pattern;
pub mod plans;
pub mod rank;
pub mod rounds;
pub mod rows;
pub mod shapes;
pub mod workloads;
