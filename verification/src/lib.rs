//! Splitting of multi-statement SQL text into single statements, and the
//! plain data that a report over their results is made of.

pub mod database;
pub mod decimal;
pub mod environment;
pub mod input;
pub mod pretty;
pub mod scan;
pub mod text;
pub mod theorems;
