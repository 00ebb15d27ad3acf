//! Object-graph synchronisation for a git remote helper that keeps a
//! repository on a content-addressed blob store and records its manifest on a
//! ledger.
//!
//! The library decides; its caller reads and writes. A push walks the local
//! object graph from a tip down to what the manifest already holds
//! ([`traversal`]), ships what it found in one labelled container and records
//! it in the manifest ([`push`]). A fetch walks the manifest from a tip down to
//! what the local object database already holds, and writes what is missing
//! ([`fetch`]). [`laws`] states what these steps keep true of the manifest.

pub mod address;
pub mod crust;
pub mod error;
pub mod fetch;
pub mod label;
pub mod laws;
pub mod ledger;
pub mod primitives;
pub mod protocol;
pub mod push;
pub mod strmap;
pub mod strset;
pub mod text;
pub mod traversal;
