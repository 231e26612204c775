//! Availability and allocation engine for table reservations.
//!
//! Instants are whole seconds since the Unix epoch in UTC, calendar dates are
//! day numbers since the epoch, and identifiers are 128-bit values. Outside
//! parsing and formatting (timestamps, wall-clock strings, UUIDs) is reached
//! through small trusted wrappers; everything else is verified.
pub mod api;
pub mod engine;
pub mod ident;
pub mod listing;
pub mod models;
pub mod service;
pub mod time;
