//! A worker that takes jobs from a queue broker, runs the pipeline of
//! subprocesses that each job's plan lays out, and publishes what came of it.
//!
//! The library holds the rules and the decisions: what a valid job, plan and
//! task is, how the input of a job is written into the tasks of its plan,
//! which subprocess runs next and on what input, what is said to the broker
//! and what its replies mean, and what the main loop does next. Sending,
//! waiting and launching are left to the program around it.

pub mod config;
pub mod error;
pub mod executor;
pub mod job;
pub mod json;
pub mod plan;
pub mod resp;
pub mod template;
pub mod text;
pub mod validation;
pub mod worker;
