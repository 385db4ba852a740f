//! Telling from its first bytes what kind of archive a buffer holds.
//!
//! The detection itself is the `infer` crate's. What it answers for a buffer
//! is not restated here: it is named by [`detected_archive`] and
//! [`detected_mime`], and the functions of this module say how the answer is
//! turned into a [`MimeKind`].

use crate::bytes::bytes_equal;
use crate::error::{Failure, PackError};
use vstd::prelude::*;
use vstd::utf8::encode_utf8_decode_utf8;

verus! {

/// The kinds of buffer that are told apart.
#[derive(Clone, Copy, Debug, PartialEq, Eq, Structural)]
pub enum MimeKind {
    /// A zip container.
    Zip,
    /// A gzip stream.
    Gzip,
    /// A bzip2 stream.
    Bzip2,
    /// An xz stream.
    Xz,
    /// A plain tar stream.
    Tar,
    /// Anything else.
    Unsupported,
}

/// Whether `infer::is_archive` says of these bytes that they are an archive.
pub uninterp spec fn detected_archive(bytes: Seq<u8>) -> bool;

/// The media type that `infer::get` finds for these bytes, if it finds one.
pub uninterp spec fn detected_mime(bytes: Seq<u8>) -> Option<Seq<char>>;

/// Calls `infer::is_archive`. The contract gives the answer its name and
/// claims nothing else of it.
#[verifier::external_body]
fn infer_is_archive(bytes: &[u8]) -> (found: bool)
    ensures
        found == detected_archive(bytes@),
{
    infer::is_archive(bytes)
}

/// Calls `infer::get` and takes the media type of what it found. The contract
/// gives the answer its name and claims nothing else of it.
#[verifier::external_body]
fn infer_mime(bytes: &[u8]) -> (mime: Option<String>)
    ensures
        match mime {
            Some(text) => detected_mime(bytes@) == Some(text@),
            None => detected_mime(bytes@) is None,
        },
{
    infer::get(bytes).map(|kind| kind.mime_type().to_string())
}

/// The kind that a media type stands for.
pub open spec fn mime_kind(mime: Seq<char>) -> MimeKind {
    if mime == "application/zip"@ {
        MimeKind::Zip
    } else if mime == "application/gzip"@ {
        MimeKind::Gzip
    } else if mime == "application/x-bzip2"@ {
        MimeKind::Bzip2
    } else if mime == "application/x-xz"@ {
        MimeKind::Xz
    } else if mime == "application/x-tar"@ {
        MimeKind::Tar
    } else {
        MimeKind::Unsupported
    }
}

/// The media type of an archive: that of a buffer which is not empty and is
/// detected as an archive. Every other buffer is no supported file.
pub open spec fn inferred(bytes: Seq<u8>) -> Result<Seq<char>, Failure> {
    if bytes.len() > 0 && detected_archive(bytes) && detected_mime(bytes) is Some {
        Ok(detected_mime(bytes)->0)
    } else {
        Err(Failure::UnsupportedFileType(None))
    }
}

/// The kind of a buffer: that of its media type where it is an archive,
/// `Unsupported` otherwise.
pub open spec fn sniffed(bytes: Seq<u8>) -> MimeKind {
    match inferred(bytes) {
        Ok(mime) => mime_kind(mime),
        Err(_) => MimeKind::Unsupported,
    }
}

/// Whether two strings hold the same text.
pub fn same_text(a: &str, b: &str) -> (same: bool)
    ensures
        same == (a@ == b@),
{
    proof {
        encode_utf8_decode_utf8(a@);
        encode_utf8_decode_utf8(b@);
    }
    bytes_equal(a.as_bytes(), b.as_bytes())
}

impl MimeKind {
    /// The kind that the media type `mime` stands for.
    pub fn from_mime(mime: &str) -> (kind: MimeKind)
        ensures
            kind == mime_kind(mime@),
    {
        if same_text(mime, "application/zip") {
            MimeKind::Zip
        } else if same_text(mime, "application/gzip") {
            MimeKind::Gzip
        } else if same_text(mime, "application/x-bzip2") {
            MimeKind::Bzip2
        } else if same_text(mime, "application/x-xz") {
            MimeKind::Xz
        } else if same_text(mime, "application/x-tar") {
            MimeKind::Tar
        } else {
            MimeKind::Unsupported
        }
    }
}

/// The media type of `file_bytes` if they are an archive. An empty buffer and
/// one that is not detected as an archive are refused.
pub fn infer_input_file(file_bytes: &[u8]) -> (res: Result<String, PackError>)
    ensures
        match res {
            Ok(mime) => inferred(file_bytes@) == Ok::<Seq<char>, Failure>(mime@),
            Err(e) => inferred(file_bytes@) == Err::<Seq<char>, Failure>(e@),
        },
{
    if file_bytes.len() > 0 && infer_is_archive(file_bytes) {
        match infer_mime(file_bytes) {
            Some(mime) => Ok(mime),
            None => Err(PackError::UnsupportedFileType(None)),
        }
    } else {
        Err(PackError::UnsupportedFileType(None))
    }
}

/// Classifies a buffer. The empty buffer and every buffer that is no archive
/// of a supported kind are `Unsupported`.
pub fn sniff(bytes: &[u8]) -> (kind: MimeKind)
    ensures
        kind == sniffed(bytes@),
        bytes@.len() == 0 ==> kind == MimeKind::Unsupported,
{
    match infer_input_file(bytes) {
        Ok(mime) => MimeKind::from_mime(mime.as_str()),
        Err(_) => MimeKind::Unsupported,
    }
}

} // verus!
