//! Execution kernel for hierarchical agents: run contexts, the per-agent
//! invocation pipeline, the shared quota counter and the sequential,
//! parallel and loop composition strategies.
//!
//! The kernel never performs an agent's own work, a callback or a dispatch to
//! a child. Each of these is asked of the caller through a small state
//! machine, and the caller reports back what happened; every transition is
//! specified over a mathematical view of the machine.

pub mod base_agent;
pub mod callback_context;
pub mod common;
pub mod composition;
pub mod invocation_context;
pub mod loop_agent;
pub mod parallel_agent;
pub mod run_config;
pub mod sequential_agent;
pub mod text;
