//! Refresh scheduling for a small cache of two remote documents: a playlist
//! and an optional programme guide.
//!
//! The crate decides; it performs no I/O. A driver reads the clock,
//! fetches, renames and sleeps as the state machines here tell it to, and
//! reports back what happened:
//!
//! - `schedule` says when a refresh cycle is due and how long to sleep;
//! - `cycle` takes a cycle through the resources, one after the other;
//! - `refresh` refreshes one resource, with retries after a fixed pause;
//! - `fetch` takes one fetch from the request to the flushed file;
//! - `config` and `resource` hold the sources and the names of the files;
//! - `clock` measures times of day;
//! - `cache` states, in a model of the directory, what a reader of the
//!   published files can find while all this goes on.

pub mod cache;
pub mod clock;
pub mod config;
pub mod cycle;
pub mod fetch;
pub mod refresh;
pub mod resource;
pub mod schedule;
