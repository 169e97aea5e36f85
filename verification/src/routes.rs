//! Decisions taken by the HTTP surface.

pub mod authentication;
pub mod health;
pub mod index;
pub mod skillblocks;
