//! Core logic of a small program that shows where values live in memory:
//! reading a birth year from typed lines, working out an age from it, and
//! laying out the lines of the results report.

pub mod age;
pub mod text;
pub mod year;
pub mod report;
