//! Command execution approval engine of an editor agent.
//!
//! An agent proposes shell commands; each proposal is validated against a deny-list,
//! given a risk tier, and recorded as Pending in a registry that enforces a single
//! path of states (Pending, Approved or Rejected, Executing, Executed or Failed).
//! A human decision moves it on; an approved command runs at most once, and how the
//! run ended is recorded. Running processes, timers and I/O belong to the caller: the
//! library decides and records.
//!
//! Modules: `policy` (validation and risk tiers), `registry` (proposals and their state
//! machine), `execution` (what a run reports), `workflow` (decisions routed by proposal),
//! `laws` (properties proved over the contracts), and around them the agent's plain
//! data: layout of its windows, its container configuration, editor registrations,
//! wire types, command extraction from answers and its specification documents.

pub mod container_config;
pub mod editor;
pub mod execution;
pub mod laws;
pub mod layout;
pub mod policy;
pub mod protocol;
pub mod registry;
pub mod response;
pub mod spec_docs;
pub mod text;
pub mod workflow;
