//! Removes listed entries from an archive, down into the archives that it
//! holds.
//!
//! The archive is a zip container or a tar stream, plain or wrapped in gzip,
//! bzip2 or xz. The entries to remove are named by a filter list of path
//! specifiers. [`archive::pack_archive`] rewrites a buffer; what it does is
//! stated by [`archive::pack_spec`], and [`laws`] holds what follows for every
//! run.
//!
//! * [`path`] and [`filter`]: paths by components, and the filter list with its
//!   two rules.
//! * [`sniff`] and [`codec`]: telling the kind of a buffer, and the codecs that
//!   wrap tar streams.
//! * [`tar_io`] and [`zip_io`]: the calls into the `tar` and `zip` crates.
//! * [`archive`]: the two pipelines and the dispatcher.
//! * [`list`], [`cli`], [`decision`], [`error`]: the filter list's text, the
//!   arguments of a run, the operator's answers, and the failures.
//! * [`bytes`]: comparing and copying byte slices.

pub mod archive;
pub mod bytes;
pub mod cli;
pub mod codec;
pub mod decision;
pub mod error;
pub mod filter;
pub mod laws;
pub mod list;
pub mod path;
pub mod sniff;
pub mod tar_io;
pub mod zip_io;
