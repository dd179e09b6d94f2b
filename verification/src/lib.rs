//! A discovery player for a music catalog: it pages through the catalog's
//! discovery feed, fetches the albums it finds, leaves out what the listener
//! has heard, and offers the rest as an endless list of tracks to step
//! through.
//!
//! The player itself is [`discovery::Discovery`]. Nothing in this library
//! waits, sleeps or talks to the network: each stage of the pipeline is a
//! function that does one round of work on the player and says what is to
//! happen next, and the program around the library does the waiting and the
//! fetching.

pub mod api;
pub mod discovery;
pub mod history;
pub mod index;
pub mod json;
pub mod laws;
pub mod models;
pub mod queue;
pub mod registry;
pub mod spider;
pub mod text;
