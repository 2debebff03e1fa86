//! A minimal directory-listing library: the pipeline that turns a directory's
//! entries into a printable listing.
//!
//! The pipeline takes a directory's entries (handed over by the caller as
//! plain values), optionally filters hidden entries, optionally renders
//! long-format metadata (file type, permission bits), sorts the rendered
//! lines, and joins them into the final output string.

pub mod laws;
pub mod list;
pub mod order;
pub mod perms;
