//! Capability-gated command gateway for a smart-home control network.
//!
//! The crate models the knowledge the gateway keeps about each device — which
//! command clusters it supports and which commands each cluster accepts — and
//! the decisions built on that knowledge: parsing the control tool's
//! diagnostic output, resolving numeric identifiers to names, assembling a
//! capability map during commissioning, and validating a requested command
//! against a device's map before an invocation is built for the external
//! control tool.

pub mod capability;
pub mod directory;
pub mod discovery;
pub mod dispatch;
pub mod numeric;
pub mod parser;
pub mod registry;
pub mod strutil;
