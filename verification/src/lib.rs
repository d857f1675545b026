//! Reconciliation core of a command-line tool installer.
//!
//! Each installed tool owns an isolated environment, a persisted receipt and a
//! set of PATH-visible entrypoint shims. The library decides, for an install
//! or upgrade request, whether the existing state can be reused untouched,
//! updated in place, or must be removed and recreated, and it carries that
//! decision out against a model of the installation root. Requirement
//! resolution and environment building are outside collaborators: their
//! replies enter as plain values, so every function here is verified for
//! every reply they can give.
//!
//! - [`bytes`], [`name`], [`model`]: byte strings, normalized package names,
//!   and the data model (requirements, options, receipts, environments).
//! - [`kvseq`]: keyed sequences, the mathematics of the store's tables.
//! - [`store`]: the receipt store — receipts, environments, shims, and the
//!   exclusive installation-root lock.
//! - [`install`], [`upgrade`]: the two reconciliation flows, each verified
//!   against a functional specification of the whole run.
//! - [`laws`]: the properties of the reconciler, proved over those
//!   specifications.

pub mod bytes;
pub mod install;
pub mod kvseq;
pub mod laws;
pub mod model;
pub mod name;
pub mod order;
pub mod store;
pub mod upgrade;
