//! A personal-site library built around a generic expiring cache.
//!
//! The heart of the crate is [`cache::Cache`], a key-value memoization
//! store with timeout-based staleness detection, per-entry timeout
//! overrides, and a combined retrieve-or-compute operation.  Around it
//! stand the page models, the theme rules, the json render contexts
//! with their recursive merge, and small helpers that the site's
//! request handlers use.

pub mod cache;
pub mod clock;
pub mod date;
pub mod json;
pub mod pages;
pub mod site;
pub mod text;
pub mod theme;
pub mod util;
