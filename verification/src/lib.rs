//! Deployment of flows: connectors and pipelines that are spawned, linked and
//! then controlled together.
//!
//! The library decides; a runtime acts. [`startup`] says which steps bring a
//! flow up and [`task`] which requests a control message leads to, and both
//! are told how each of them went. [`link`] lays out how two instances are
//! linked and [`topology`] in which groups instances are addressed.
//! [`startup_laws`], [`startup_runs`] and [`task_laws`] hold what follows for
//! whole runs. [`control_laws`], [`link_laws`], [`topology_laws`] and
//! [`ids_laws`] say what single messages, links, parts and names are for, and
//! [`call_laws`] what callers can rely on.
pub mod call_laws;
pub mod control_laws;
pub mod deployment;
pub mod error;
pub mod flow;
pub mod ids;
pub mod ids_laws;
pub mod link;
pub mod link_laws;
pub mod msg;
pub mod registry;
pub mod startup;
pub mod startup_laws;
pub mod startup_runs;
pub mod task;
pub mod task_laws;
pub mod topology;
pub mod topology_laws;
