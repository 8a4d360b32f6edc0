//! Mail-account backend core: a verified mail-provider resolution engine.
//!
//! Given an email address, the engine decides which IMAP/SMTP endpoint to
//! use, by combining a built-in catalog of well-known providers, operator
//! supplied custom server definitions discovered from configuration
//! key/value pairs, and a generic fallback derived from the address's own
//! domain.

pub mod config;
pub mod imap_service;
pub mod kvmap;
pub mod strutil;
pub mod utils;
