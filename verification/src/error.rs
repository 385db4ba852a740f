//! The ways in which an operation of this crate can fail.

use vstd::prelude::*;

verus! {

/// A failure, as contracts speak of it: [`PackError`] with every string
/// replaced by the characters it holds.
pub enum Failure {
    UnsupportedFileType(Option<Seq<char>>),
    UnsupportedEncodingFormat,
    UnsupportedDecodingFormat,
    InvalidCompressionLevel,
    FilterColumnNotFound(usize),
    FilterListUnreadable,
    MalformedEntry,
    UserCancelled,
    CodecFailure,
    ContainerFailure,
    EntryTooLarge,
    NestingTooDeep,
}

/// Why an operation failed.
#[derive(Debug)]
pub enum PackError {
    /// The bytes are not one of the supported archive kinds. Holds the
    /// detected media type where one could be inferred.
    UnsupportedFileType(Option<String>),
    /// No encoder exists for the requested kind.
    UnsupportedEncodingFormat,
    /// No decoder exists for the requested kind.
    UnsupportedDecodingFormat,
    /// The compression level lies outside `0..=9`.
    InvalidCompressionLevel,
    /// A record of the filter list has no column with this one-based index.
    FilterColumnNotFound(usize),
    /// The filter list is not well-formed delimited text.
    FilterListUnreadable,
    /// A tar entry could not be parsed and skipping it was not agreed to.
    MalformedEntry,
    /// The operator declined to go on.
    UserCancelled,
    /// A compressed stream could not be decoded or encoded.
    CodecFailure,
    /// A container could not be read or written.
    ContainerFailure,
    /// An entry's size cannot be represented on this machine.
    EntryTooLarge,
    /// Archives are nested more deeply than is supported.
    NestingTooDeep,
}

impl View for PackError {
    type V = Failure;

    open spec fn view(&self) -> Failure {
        match *self {
            PackError::UnsupportedFileType(None) => Failure::UnsupportedFileType(None),
            PackError::UnsupportedFileType(Some(mime)) => Failure::UnsupportedFileType(
                Some(mime@),
            ),
            PackError::UnsupportedEncodingFormat => Failure::UnsupportedEncodingFormat,
            PackError::UnsupportedDecodingFormat => Failure::UnsupportedDecodingFormat,
            PackError::InvalidCompressionLevel => Failure::InvalidCompressionLevel,
            PackError::FilterColumnNotFound(index) => Failure::FilterColumnNotFound(index),
            PackError::FilterListUnreadable => Failure::FilterListUnreadable,
            PackError::MalformedEntry => Failure::MalformedEntry,
            PackError::UserCancelled => Failure::UserCancelled,
            PackError::CodecFailure => Failure::CodecFailure,
            PackError::ContainerFailure => Failure::ContainerFailure,
            PackError::EntryTooLarge => Failure::EntryTooLarge,
            PackError::NestingTooDeep => Failure::NestingTooDeep,
        }
    }
}

/// The highest compression level that is accepted.
pub const MAX_COMPRESSION_LEVEL: u32 = 9;

/// Whether `level` lies in the accepted range `0..=9`.
pub open spec fn valid_level(level: u32) -> bool {
    level <= MAX_COMPRESSION_LEVEL
}

/// Checks a compression level: a level in `0..=9` is handed back unchanged,
/// any other is rejected.
pub fn parse_compression(compression_level: u32) -> (res: Result<u32, PackError>)
    ensures
        match res {
            Ok(level) => valid_level(compression_level) && level == compression_level,
            Err(e) => !valid_level(compression_level) && e@ == Failure::InvalidCompressionLevel,
        },
{
    if compression_level <= MAX_COMPRESSION_LEVEL {
        Ok(compression_level)
    } else {
        Err(PackError::InvalidCompressionLevel)
    }
}

} // verus!
