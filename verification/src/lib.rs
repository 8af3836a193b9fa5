//! A course test runner: loads a declarative course specification (ordered
//! test suites, each an ordered list of tests), drives a finite state machine
//! over it, classifies each test outcome as pass or fail, halts early when a
//! mandatory test fails inside a mandatory suite, and reports a final score.
//!
//! The library holds the execution state machine and its decision logic.
//! Reading the specification file, spawning test commands and rendering
//! progress are performed by the surrounding application, which feeds the
//! machine plain values and interprets the events it emits.

pub mod laws;
pub mod parsing;
pub mod runner;
