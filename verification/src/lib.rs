//! Engine of a fluent-method generator: given a container of method
//! declarations and a layered attribute configuration, it decides which
//! mutating methods get a chaining counterpart, synthesizes those
//! counterparts, and places them in the original container or a new sibling.
//!
//! Turning source text into the declaration model and rendering the output
//! back to source are left to an unverified host around this library.
//!
//! - [`model`]: the declaration model, its spec-level mirrors, and the
//!   error taxonomy;
//! - [`config`]: the attribute parser and the two configuration surfaces;
//! - [`method`]: per-method configuration, eligibility and synthesis;
//! - [`impl_block`]: the placement planner and the engine's entry point;
//! - [`type_utils`]: the type-name formatter;
//! - [`strings`]: the verified string utilities under all of the above;
//! - [`laws`]: the engine's general guarantees, proved once and for all.

pub mod config;
pub mod impl_block;
pub mod laws;
pub mod method;
pub mod model;
pub mod strings;
pub mod type_utils;
