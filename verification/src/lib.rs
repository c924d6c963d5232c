//! Full-text feed patching.
//!
//! Takes an RSS or Atom feed, and for each entry replaces (or augments) the
//! summary with the full article text fetched from the entry's link. The
//! library covers format detection, a uniform document abstraction over the
//! two feed families, the policy that governs how many items are processed
//! and how failures are handled, and the rewriting of the item collection.
//! Fetching bytes over the network and running the article extractor are left
//! to the surrounding program, which feeds their results back in as plain
//! values.

pub mod cli;
pub mod config;
pub mod feeds;
pub mod native;
pub mod patch;
pub mod webserver;
