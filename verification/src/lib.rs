//! A typed configuration-space and experiment-dispatch layer for an iterated-racing
//! tuning engine.
//!
//! The engine itself is a black box that is reached through a loosely-typed boundary:
//! it is handed a description of the parameter space, calls back with untyped
//! experiment records, and finally returns untyped configurations. This crate is the
//! typed side of that boundary: it models parameter spaces, flattens nested spaces,
//! describes spaces and scenarios for the engine, decodes what the engine hands back
//! against the space as schema, and dispatches experiments to a target runner.

pub mod collision;
pub mod decode;
pub mod encode;
pub mod error;
pub mod experiment;
pub mod flatten;
pub mod instance;
pub mod named;
pub mod number;
pub mod param;
pub mod param_space;
pub mod params;
pub mod raw;
pub mod run;
pub mod runner;
pub mod scenario;
pub mod values;

pub use experiment::Experiment;
pub use instance::{DistributedInstance, ErasedInstance, Instance, InstanceRegistry, TypeTag};
pub use number::Real;
pub use param::Param;
pub use params::Params;
pub use run::{convert_result, convert_results, Run};
pub use runner::{PyTargetRunner, TargetRunner};
