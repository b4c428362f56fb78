//! A per-processor event recorder for a scheduler's load-balancing path.
//!
//! Each processor owns a fixed-length ring buffer of structured records.  A
//! producer opens a slot, fills one record across many field-set calls, and
//! closes it; an independent reader locks the buffer, drains every record into
//! a bounded text sink as one JSON-like document, and then resets the buffer,
//! invalidating any handle that is still in flight.

pub mod errors;
pub mod fields;
pub mod iter;
pub mod laws;
pub mod record;
pub mod report;
pub mod ring;
pub mod state;
pub mod writer;
