//! Translate a Cargo-style package manifest (and, for workspaces, its member
//! graph) into a declarative description of external build inputs for a
//! Nix-style reproducible build tool.
//!
//! The heart of the crate is the dependency-source classification engine
//! ([`classify`]), the git/registry URL normalizer that rewrites source URLs
//! into canonical flake references ([`flake_ref`]), and the builder that walks
//! a manifest (or a whole workspace) and accumulates a deduplicated,
//! deterministically ordered mapping of external sources to flake references
//! ([`builder`]).
//!
//! All filesystem access (reading manifests, expanding member globs,
//! canonicalizing paths, listing conventional product directories) happens
//! outside this crate; the functions here take the answers of those queries as
//! plain values, so every decision the tool makes is verified.

pub mod builder;
pub mod classify;
pub mod cli;
pub mod errors;
pub mod flake_ref;
pub mod legacy;
pub mod manifest;
pub mod pairset;
pub mod products;
pub mod strmap;
pub mod strutil;
