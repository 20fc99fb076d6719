//! Finds and delimits the manifest of an update-engine payload, stored
//! alone or as the `payload.bin` entry of a ZIP container.
//!
//! Nothing in this crate performs I/O. A [`source::RandomAccessSource`]
//! holds the byte ranges that its owner has fetched so far, from a file, a
//! mapped buffer or a remote resource. Every reader in the crate works on
//! such a source and, where a range that it needs is not resident yet, says
//! which one: the owner fetches that range, supplies it, and makes the same
//! call again.
//!
//! - [`source`]: the source, with its cursor, and what reads from it give;
//! - [`remote`]: the cursor of a resource behind HTTP, and the one range to
//!   request for each read;
//! - [`zipfile`]: the records of a ZIP container, and the reader of its
//!   index and entries;
//! - [`container`]: what that reader finds, stated over the bytes of the
//!   container;
//! - [`payload`]: the header of a payload, up to the end of the manifest;
//! - [`dumper`]: from an input to its payload, by the kind of the input;
//! - [`invocation`]: the command line, and the kinds of input;
//! - [`payload_formatter`], [`compression`], [`endian`], [`error`]: the
//!   text of raw bytes, compression methods, integers in bytes, and errors.

pub mod compression;
pub mod container;
pub mod dumper;
pub mod endian;
pub mod error;
pub mod invocation;
pub mod payload;
pub mod payload_formatter;
pub mod remote;
pub mod source;
mod text;
pub mod zipfile;
