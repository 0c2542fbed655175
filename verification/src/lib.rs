//! Search in docsets: trees of documentation pages that are kept on disk,
//! each with an index of the names of its pages.
//!
//! A search looks either through the index of names or through the pages
//! themselves, keeps its results in a cache, lists them under numbers, and
//! resolves a number to the page to open. The library decides and computes;
//! its caller reads and writes the files.

pub mod cache;
pub mod catalog;
pub mod command;
pub mod content;
pub mod engine;
pub mod entry;
pub mod index;
pub mod message;
pub mod model;
pub mod order;
pub mod present;
pub mod sanitize;
pub mod strings;
pub mod text;
pub mod tree;
pub mod walk;
