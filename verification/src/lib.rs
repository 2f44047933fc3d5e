//! Process supervision for container-like environments: the shapes of a
//! supervision configuration, and the engine that decides in which order
//! processes are started and stopped.

pub mod config;
pub mod engine;
pub mod model;
