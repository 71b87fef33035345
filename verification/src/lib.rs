//! Content equivalence of files, for safe merging of duplicates.
//!
//! Two candidates are ordered first by their metadata snapshot (storage
//! device, then size). Only candidates with equal metadata have their content
//! consulted, chunk by chunk, through per-candidate progress records that keep
//! the digest of every chunk already read, so that no byte of a file is read
//! twice however many comparisons the candidate takes part in.
//!
//! The library performs no I/O. It decides what has to be read next and what
//! follows from what was read; the caller performs the reads.

pub mod relation;
pub mod metadata;
pub mod hasher;

pub mod group;
pub mod content;
pub mod laws;
