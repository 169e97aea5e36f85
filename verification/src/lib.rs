//! Session-authenticated synchronisation of per-day activity totals.
//!
//! The library decides; the program around it performs the reads, the
//! fetches and the writes that the decisions ask for.

pub mod auth;
pub mod configuration;
pub mod day;
pub mod db;
pub mod reconcile;
pub mod routes;
pub mod series;
pub mod text;
