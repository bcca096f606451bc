//! Publishing Python wheels to an object store laid out as a "simple" package index.
//!
//! The crate holds the decisions of the two stages: which local files are
//! uploaded and under which keys, and which index pages follow from a listing
//! of the store. Reading directories and talking to the store is left to the
//! caller, who hands over names and keys and gets back what to write.

pub mod text;
pub mod names;
pub mod pattern;
pub mod package_index;
pub mod pages;
pub mod indexer;
pub mod uploader;
pub mod config;
