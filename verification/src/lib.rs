//! Reconciles a manifest's declared dependency versions against the latest
//! versions published by a package registry.
//!
//! The core pieces are a constraint model (an optional `^`/`~` range marker
//! plus an exact version string), a per-package update decision, a scheduler
//! that turns a dependency group and its registry lookup outcomes into an
//! ordered sequence of update decisions, and an aggregator that merges the
//! runtime and development groups into one report and, on request, applies
//! the decisions back onto the constraint mappings.

pub mod aggregate;
pub mod constraint;
pub mod depmap;
pub mod error;
pub mod manifest;
pub mod reconcile;
pub mod registry;
