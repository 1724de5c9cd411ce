//! An in-memory page model: a registry of pages with generation-checked
//! handles, per-page typed data and process-wide singleton resources held in
//! key-indexed stores, a parent/child hierarchy, searchable content sections,
//! and a lazy two-level search cursor.

pub mod accounts;
pub mod entity;
pub mod model;
pub mod pattern;
pub mod search;
pub mod sparse;
pub mod store;
