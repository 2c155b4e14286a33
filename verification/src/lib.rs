//! Runs a daily puzzle solution, reads the two answers it prints and reports
//! how the puzzle site received them.
//!
//! The crate holds every decision of that pipeline as verified functions on
//! plain values; starting processes, touching files and talking to the site
//! are left to the caller, which is told what to do by [`pipeline::Action`]
//! and says what happened by [`pipeline::Event`].

pub mod args;
pub mod config;
pub mod decimal;
pub mod error;
pub mod output;
pub mod pipeline;
pub mod puzzle;
pub mod report;
pub mod run;
pub mod submit;
pub mod text;
