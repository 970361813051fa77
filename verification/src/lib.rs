//! A registry of bare repositories kept under one hub directory, and the
//! remotes that link working repositories to it.
//!
//! The library holds what is known of the disk as plain values and decides on
//! them; reading the disk and carrying a decision out are left to the caller.

pub mod entry;
pub mod error;
pub mod hub;
pub mod laws;
pub mod name;
pub mod probe;
pub mod remote;
pub mod text;
