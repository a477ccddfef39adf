//! Validation of delimited records against fixed table schemas, ready for a
//! key-value store import: a numeric-literal grammar, a date grammar, a
//! registry of schemas, header and record checks, composite-key display and
//! deduplication keys; date-time normalisation and comparison; and the
//! redraw decisions of a progress bar.

pub mod text;
pub mod digits;
pub mod number;
pub mod date;
pub mod datetime;
pub mod schema;
pub mod header;
pub mod validate;
pub mod scan;
pub mod dedup;
pub mod lines;
pub mod laws;
pub mod progress;
