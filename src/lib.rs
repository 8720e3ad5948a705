//! A dashboard platform core: apps publish snapshots of their items and
//! schedules, and a reconciler keeps a store of apps, items and recurring
//! jobs in step with them.
//!
//! - `app_data`: the submission schema.
//! - `input`: what the sources hand to the reconciler.
//! - `items`: stored items and the resurface rule.
//! - `schedule`: job ids and the registry plan.
//! - `store`: the store and the reconciler's operations on it.
//! - `laws`: properties of reconciliation, proved over the store's view.
//! - `table`: rows with unique keys, seen as maps.
//! - `source`, `runner`, `paths`: decisions of the directory watcher and of
//!   the job runner, and the file layout.
//! - `error`, `models`, `config`: errors, payloads and configuration values.

pub mod app_data;
pub mod config;
pub mod error;
pub mod input;
pub mod items;
pub mod laws;
pub mod models;
pub mod paths;
pub mod runner;
pub mod schedule;
pub mod source;
pub mod store;
pub mod table;
