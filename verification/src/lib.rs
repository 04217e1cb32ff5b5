//! Protocol layer of a command-line controller for a Philips Hue bridge.
//!
//! The crate holds everything the controller decides or computes, and leaves
//! network and file access to its caller, which hands bytes in and sends the
//! requests that come out:
//!
//! - [`units`] turns percentages and kelvin into the bridge's encodings;
//! - [`json`] holds a JSON document as a tree, read by `serde_json`;
//! - [`philips_hue`] writes the requests of the bridge's API and reads its
//!   replies;
//! - [`pairing`] decides each step of the loop that waits for the link
//!   button;
//! - [`discovery`] picks the bridge among the answers to a multicast-DNS
//!   query;
//! - [`config`] reads and writes the stored configuration;
//! - [`commands`] puts these together for each command;
//! - [`text`] and [`common`] hold what the others share.

pub mod commands;
pub mod common;
pub mod config;
pub mod discovery;
pub mod json;
pub mod pairing;
pub mod philips_hue;
pub mod text;
pub mod units;
