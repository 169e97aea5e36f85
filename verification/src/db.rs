//! The records the datastore holds.

pub mod models;
