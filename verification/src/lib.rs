//! Incremental activity-sync and session-cache engine.
//!
//! A long-running remote service keeps, for every agent session, an
//! append-only activity log served one page at a time.  This crate holds the
//! verified core of a client for that service: an incremental sync engine
//! that caches every sealed page forever and re-fetches only the still
//! growing tail page, a resolver that turns user tokens (aliases, 1-based
//! indices, raw IDs) into session IDs, an in-memory image of the on-disk
//! cache records, and the duplicate-suppression logic of the background
//! notification watcher.  All I/O — HTTP, the cache files, the chat
//! transport — lives outside this crate; callers hand the functions here
//! plain values and persist or transmit what comes back.

pub mod activity;
pub mod auth;
pub mod cache;
pub mod errors;
pub mod resolve;
pub mod strmap;
pub mod sync;
pub mod watcher;
