//! Management of installable content units ("HUDs"): resolving packages from
//! archives, scanning extracted trees for unit metadata, planning deployment
//! into a destination directory, and tracking installation state in a registry.
//!
//! All filesystem and network effects are described as plain data (plans,
//! listings, byte buffers); an unverified shell performs them.

pub mod strutil;
pub mod vdf;
pub mod paths;
pub mod package;
pub mod archive;
pub mod source;
pub mod registry;
pub mod deployment;
