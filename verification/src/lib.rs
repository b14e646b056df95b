//! Verified core of a workflow orchestrator.
pub mod compiled;
pub mod error;
pub mod executors;
pub mod graph;
pub mod ids;
pub mod job_tracker;
pub mod json;
pub mod keyed;
pub mod maps;
pub mod models;
pub mod paths;
pub mod runner;
pub mod scheduling;
pub mod schema;
pub mod sdk;
pub mod task_execution;
pub mod text;
pub mod types;
pub mod validation;
pub mod workflow;
pub mod workflow_service;
