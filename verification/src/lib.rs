//! Keeps a local copy of the Freefall comic in step with the site: which
//! strips are missing, where each one is fetched from, what a strip's page
//! says, and where the results are filed.
//!
//! The library decides and computes; it reads and writes nothing. A run is
//! a value of [`sync::Run`]: it asks for one action at a time, and is told
//! what the action has brought.

pub mod data;
pub mod driver;
pub mod error;
pub mod freefall;
pub mod laws;
pub mod plan;
pub mod sync;
pub mod text;
