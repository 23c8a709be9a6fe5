//! aiueos: capability-secure component manifests, signature checks and the
//! in-process topic bus, with their contracts proved by Verus.

pub mod edn;
pub mod error;
pub mod manifest;
pub mod policy;
pub mod runtime;
pub mod signing;
pub mod text;
pub mod topic;
