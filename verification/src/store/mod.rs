//! What outlives a restart.

pub mod cron;
pub mod db;
pub mod dynamic_workers;
pub mod gotify;
pub mod model_catalog;
pub mod plugins;
pub mod pricing;
pub mod review;
pub mod rows;
pub mod session_tags;
pub mod sessions;
pub mod slack;
pub mod state;

pub use db::{Db, StoreError};
