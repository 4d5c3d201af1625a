//! Command lines of the tools: what the words ask for, or why they are refused.
pub mod generate;
pub mod laws;
pub mod link;
pub mod words;
