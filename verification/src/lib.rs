//! An embeddable SQL engine: statements built with a fluent front end run
//! against a transactional in-memory store and return typed payloads.
//!
//! A statement — CREATE TABLE, INSERT, SELECT, UPDATE or DELETE — is
//! validated against the catalog, its PRIMARY KEY and UNIQUE constraints
//! are enforced, and it either commits whole or leaves the committed
//! state untouched. Every public operation carries a contract against the
//! engine's model, and `laws` states and proves the properties the engine
//! is meant to keep.

pub mod ast;
pub mod builder;
pub mod catalog;
pub mod engine;
pub mod error;
pub mod eval;
pub mod laws;
pub mod storage;
pub mod value;
