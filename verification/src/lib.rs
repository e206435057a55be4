//! Bulk installation of version-manager plugins: the decisions of a run,
//! kept apart from the processes that carry them out.
//!
//! [`listing`] reads the plugins from what the tool prints, [`plan`] holds
//! what is asked of the tool for each of them, [`command`] the trace printed
//! around one invocation, and [`session`] the run as a whole.

pub mod command;
pub mod listing;
pub mod plan;
pub mod session;
pub mod std_specs;
pub mod text;
