//! Facts about Rust crates, read from the registry, the sparse index and
//! the documentation documents of docs.rs.
//!
//! The heart of the crate reads a documentation document, a deeply nested
//! JSON value without a fixed schema, and tells what stands in it: the
//! signatures of its items, its module tree, which type owns which method,
//! which traits a type implements, and which feature flags gate an item.
//! Around it stand the rules of the registry's tools: how pages are cut,
//! how versions are ordered, how downloads are summed.
//!
//! Every function here is verified against its contract. What comes from
//! other crates (`regex`, `serde_json`, `semver`, `zstd`, `sha2`, `hex`,
//! `chrono`) stands behind small wrappers whose contracts are believed.

pub mod text;
pub mod table;
pub mod json;
pub mod error;
pub mod types;
pub mod render;
pub mod signature;
pub mod features;
pub mod module_tree;
pub mod methods;
pub mod search;
pub mod impls;
pub mod lookup;
pub mod impls_list;
pub mod sparse_index;
pub mod versions;
pub mod cratesio;
pub mod downloads;
pub mod readme;
pub mod cache;
pub mod urls;
pub mod tools;
