//! A verified model of a wireless mesh network's live topology: controllers,
//! their member nodes and the attribute values those nodes expose, kept
//! consistent while driver notifications are applied, together with the
//! decoding of the console commands that read and act on it.

pub mod command;
pub mod ingest;
pub mod laws;
pub mod model;
pub mod numeral;
pub mod state;
