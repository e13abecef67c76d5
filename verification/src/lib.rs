//! Chunk-oriented bulk transfer of fixed-size records to and from an object
//! store.
//!
//! The store itself (ranged reads, multipart uploads) is an external
//! collaborator reached from unverified driver code; this crate holds the
//! engines that decide what to request, how to regroup arbitrary network
//! chunks into fixed-size records, when to resume after a failure, and how a
//! multipart upload's parts are cut, numbered and committed.

pub mod bytebuf;
pub mod chunker;
pub mod decoder;
pub mod error;
pub mod reader;
pub mod seqtools;
pub mod upload;
