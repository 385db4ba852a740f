//! Choosing the codec that wraps a tar stream, and running it.
//!
//! A tar stream comes plain or inside a gzip, bzip2 or xz stream. The
//! compression itself is done by `flate2`, `bzip2` and `xz2`. What they yield
//! for given bytes is not restated here: each result has a name, and the
//! functions of this module say which codec is chosen and what becomes of its
//! result.

use crate::bytes::copy_bytes;
use crate::error::{valid_level, Failure, PackError};
use crate::sniff::{mime_kind, MimeKind};
use vstd::prelude::*;

verus! {

/// What `flate2`'s gzip decoder reads from `data` up to the end of the stream;
/// `None` where it reports an error.
pub uninterp spec fn gzip_decoded(data: Seq<u8>) -> Option<Seq<u8>>;

/// What `bzip2`'s decoder reads from `data` up to the end of the stream;
/// `None` where it reports an error.
pub uninterp spec fn bzip2_decoded(data: Seq<u8>) -> Option<Seq<u8>>;

/// What `xz2`'s decoder reads from `data` up to the end of the stream; `None`
/// where it reports an error.
pub uninterp spec fn xz_decoded(data: Seq<u8>) -> Option<Seq<u8>>;

/// What `flate2`'s gzip encoder makes of `data` at `level`; `None` where it
/// reports an error.
pub uninterp spec fn gzip_encoded(data: Seq<u8>, level: u32) -> Option<Seq<u8>>;

/// What `bzip2`'s encoder makes of `data` at `level`; `None` where the level is
/// none of the crate's or the encoder reports an error.
pub uninterp spec fn bzip2_encoded(data: Seq<u8>, level: u32) -> Option<Seq<u8>>;

/// What `xz2`'s encoder makes of `data` at `level`; `None` where it reports an
/// error.
pub uninterp spec fn xz_encoded(data: Seq<u8>, level: u32) -> Option<Seq<u8>>;

/// Whether an optional buffer holds what was expected of it.
pub open spec fn same_bytes(got: Option<Vec<u8>>, expected: Option<Seq<u8>>) -> bool {
    match got {
        Some(bytes) => expected == Some(bytes@),
        None => expected is None,
    }
}

/// Reads `data` to its end through `flate2::read::GzDecoder`. The contract
/// names what was read and claims nothing else of it.
#[verifier::external_body]
fn gzip_decode(data: &[u8]) -> (out: Option<Vec<u8>>)
    ensures
        same_bytes(out, gzip_decoded(data@)),
{
    let mut out = Vec::new();
    let mut decoder = flate2::read::GzDecoder::new(data);
    std::io::Read::read_to_end(&mut decoder, &mut out).ok()?;
    Some(out)
}

/// Reads `data` to its end through `bzip2::read::BzDecoder`. The contract
/// names what was read and claims nothing else of it.
#[verifier::external_body]
fn bzip2_decode(data: &[u8]) -> (out: Option<Vec<u8>>)
    ensures
        same_bytes(out, bzip2_decoded(data@)),
{
    let mut out = Vec::new();
    let mut decoder = bzip2::read::BzDecoder::new(data);
    std::io::Read::read_to_end(&mut decoder, &mut out).ok()?;
    Some(out)
}

/// Reads `data` to its end through `xz2::read::XzDecoder`. The contract names
/// what was read and claims nothing else of it.
#[verifier::external_body]
fn xz_decode(data: &[u8]) -> (out: Option<Vec<u8>>)
    ensures
        same_bytes(out, xz_decoded(data@)),
{
    let mut out = Vec::new();
    let mut decoder = xz2::read::XzDecoder::new(data);
    std::io::Read::read_to_end(&mut decoder, &mut out).ok()?;
    Some(out)
}

/// Writes `data` through `flate2::write::GzEncoder` into a fresh buffer and
/// finishes the stream. The level is kept to `0..=9`, the scale that `flate2`
/// documents. The contract names the result and claims nothing else of it.
#[verifier::external_body]
fn gzip_encode(data: &[u8], level: u32) -> (out: Option<Vec<u8>>)
    requires
        valid_level(level),
    ensures
        same_bytes(out, gzip_encoded(data@, level)),
{
    let mut encoder = flate2::write::GzEncoder::new(Vec::new(), flate2::Compression::new(level));
    std::io::Write::write_all(&mut encoder, data).ok()?;
    encoder.finish().ok()
}

/// Writes `data` through `bzip2::write::BzEncoder` into a fresh buffer and
/// finishes the stream. A level that `bzip2::Compression::try_new` turns down
/// gives `None`. The contract names the result and claims nothing else of it.
#[verifier::external_body]
fn bzip2_encode(data: &[u8], level: u32) -> (out: Option<Vec<u8>>)
    ensures
        same_bytes(out, bzip2_encoded(data@, level)),
{
    let level = bzip2::Compression::try_new(level)?;
    let mut encoder = bzip2::write::BzEncoder::new(Vec::new(), level);
    std::io::Write::write_all(&mut encoder, data).ok()?;
    encoder.finish().ok()
}

/// Writes `data` through `xz2::write::XzEncoder` into a fresh buffer and
/// finishes the stream. The level is kept to `0..=9`, the presets that liblzma
/// has: with another the constructor panics. The contract names the result and
/// claims nothing else of it.
#[verifier::external_body]
fn xz_encode(data: &[u8], level: u32) -> (out: Option<Vec<u8>>)
    requires
        valid_level(level),
    ensures
        same_bytes(out, xz_encoded(data@, level)),
{
    let mut encoder = xz2::write::XzEncoder::new(Vec::new(), level);
    std::io::Write::write_all(&mut encoder, data).ok()?;
    encoder.finish().ok()
}

/// The tar stream inside `data` when `data` is of kind `kind`: the decoded
/// stream for the three compressed kinds, `data` itself for plain tar. No
/// decoder exists for the other kinds.
pub open spec fn decoded(kind: MimeKind, data: Seq<u8>) -> Result<Seq<u8>, Failure> {
    match kind {
        MimeKind::Gzip => match gzip_decoded(data) {
            Some(stream) => Ok(stream),
            None => Err(Failure::CodecFailure),
        },
        MimeKind::Bzip2 => match bzip2_decoded(data) {
            Some(stream) => Ok(stream),
            None => Err(Failure::CodecFailure),
        },
        MimeKind::Xz => match xz_decoded(data) {
            Some(stream) => Ok(stream),
            None => Err(Failure::CodecFailure),
        },
        MimeKind::Tar => Ok(data),
        _ => Err(Failure::UnsupportedDecodingFormat),
    }
}

/// What a tar stream `data` becomes when it is wrapped as kind `kind` at
/// `level`: the encoded stream for the three compressed kinds, `data` itself
/// for plain tar. No encoder exists for the other kinds.
pub open spec fn encoded(kind: MimeKind, level: u32, data: Seq<u8>) -> Result<Seq<u8>, Failure> {
    match kind {
        MimeKind::Gzip => match gzip_encoded(data, level) {
            Some(stream) => Ok(stream),
            None => Err(Failure::CodecFailure),
        },
        MimeKind::Bzip2 => match bzip2_encoded(data, level) {
            Some(stream) => Ok(stream),
            None => Err(Failure::CodecFailure),
        },
        MimeKind::Xz => match xz_encoded(data, level) {
            Some(stream) => Ok(stream),
            None => Err(Failure::CodecFailure),
        },
        MimeKind::Tar => Ok(data),
        _ => Err(Failure::UnsupportedEncodingFormat),
    }
}

/// Whether a result holds the bytes, or the failure, that was expected.
pub open spec fn same_outcome(
    got: Result<Vec<u8>, PackError>,
    expected: Result<Seq<u8>, Failure>,
) -> bool {
    match got {
        Ok(bytes) => expected == Ok::<Seq<u8>, Failure>(bytes@),
        Err(e) => expected == Err::<Seq<u8>, Failure>(e@),
    }
}

/// Whether a codec wraps tar streams of this kind.
pub open spec fn wraps_tar(kind: MimeKind) -> bool {
    kind == MimeKind::Gzip || kind == MimeKind::Bzip2 || kind == MimeKind::Xz || kind
        == MimeKind::Tar
}

/// The encoding side of a codec: the kind of stream to produce and the level
/// to produce it at.
#[derive(Clone, Copy, Debug)]
pub struct TarEncoder {
    kind: MimeKind,
    level: u32,
}

impl TarEncoder {
    /// The kind of stream that this encoder produces.
    pub closed spec fn kind(&self) -> MimeKind {
        self.kind
    }

    /// The level at which this encoder compresses.
    pub closed spec fn level(&self) -> u32 {
        self.level
    }

    /// Every encoder wraps a tar stream, at a level in `0..=9`.
    #[verifier::type_invariant]
    pub closed spec fn well_formed(&self) -> bool {
        wraps_tar(self.kind) && valid_level(self.level)
    }

    /// The encoder for streams of kind `kind`. The kinds that wrap no tar
    /// stream have none.
    pub fn for_kind(kind: MimeKind, compression_level: u32) -> (res: Result<TarEncoder, PackError>)
        requires
            valid_level(compression_level),
        ensures
            match res {
                Ok(encoder) => wraps_tar(kind) && encoder.kind() == kind && encoder.level()
                    == compression_level,
                Err(e) => !wraps_tar(kind) && e@ == Failure::UnsupportedEncodingFormat,
            },
    {
        match kind {
            MimeKind::Gzip | MimeKind::Bzip2 | MimeKind::Xz | MimeKind::Tar => Ok(
                TarEncoder { kind, level: compression_level },
            ),
            _ => Err(PackError::UnsupportedEncodingFormat),
        }
    }

    /// The encoder for the media type `mime_type`. A media type that names no
    /// wrapper of tar streams has none.
    pub fn new(mime_type: &str, compression_level: u32) -> (res: Result<TarEncoder, PackError>)
        requires
            valid_level(compression_level),
        ensures
            match res {
                Ok(encoder) => wraps_tar(mime_kind(mime_type@)) && encoder.kind() == mime_kind(
                    mime_type@,
                ) && encoder.level() == compression_level,
                Err(e) => !wraps_tar(mime_kind(mime_type@)) && e@
                    == Failure::UnsupportedEncodingFormat,
            },
    {
        TarEncoder::for_kind(MimeKind::from_mime(mime_type), compression_level)
    }

    /// Wraps the finished tar stream `data`.
    pub fn encode(&self, data: &[u8]) -> (res: Result<Vec<u8>, PackError>)
        ensures
            same_outcome(res, encoded(self.kind(), self.level(), data@)),
    {
        proof {
            use_type_invariant(self);
        }
        let out = match self.kind {
            MimeKind::Gzip => gzip_encode(data, self.level),
            MimeKind::Bzip2 => bzip2_encode(data, self.level),
            MimeKind::Xz => xz_encode(data, self.level),
            _ => Some(copy_bytes(data)),
        };
        match out {
            Some(bytes) => Ok(bytes),
            None => Err(PackError::CodecFailure),
        }
    }
}

/// The decoding side of a codec: the kind of stream to read and the bytes to
/// read it from.
#[derive(Clone, Copy, Debug)]
pub struct TarDecoder<'a> {
    kind: MimeKind,
    source: &'a [u8],
}

impl<'a> TarDecoder<'a> {
    /// The kind of stream that this decoder reads.
    pub closed spec fn kind(&self) -> MimeKind {
        self.kind
    }

    /// The bytes that this decoder reads from.
    pub closed spec fn source(&self) -> Seq<u8> {
        self.source@
    }

    /// Every decoder reads a wrapper of tar streams.
    #[verifier::type_invariant]
    pub closed spec fn well_formed(&self) -> bool {
        wraps_tar(self.kind)
    }

    /// Reads the stream to its end.
    pub fn decode(&self) -> (res: Result<Vec<u8>, PackError>)
        ensures
            same_outcome(res, decoded(self.kind(), self.source())),
    {
        proof {
            use_type_invariant(self);
        }
        let out = match self.kind {
            MimeKind::Gzip => gzip_decode(self.source),
            MimeKind::Bzip2 => bzip2_decode(self.source),
            MimeKind::Xz => xz_decode(self.source),
            _ => Some(copy_bytes(self.source)),
        };
        match out {
            Some(bytes) => Ok(bytes),
            None => Err(PackError::CodecFailure),
        }
    }
}

/// The decoder for the bytes `reader`, read as a stream of kind `kind`. The
/// kinds that wrap no tar stream have none.
pub fn decoder_for<'a>(reader: &'a [u8], kind: MimeKind) -> (res: Result<TarDecoder<'a>, PackError>)
    ensures
        match res {
            Ok(decoder) => wraps_tar(kind) && decoder.kind() == kind && decoder.source()
                == reader@,
            Err(e) => !wraps_tar(kind) && e@ == Failure::UnsupportedDecodingFormat,
        },
{
    match kind {
        MimeKind::Gzip | MimeKind::Bzip2 | MimeKind::Xz | MimeKind::Tar => Ok(
            TarDecoder { kind, source: reader },
        ),
        _ => Err(PackError::UnsupportedDecodingFormat),
    }
}

/// The decoder for the bytes `reader`, read as the media type `mime_type`. A
/// media type that names no wrapper of tar streams has none.
pub fn create_tar_decoder<'a>(reader: &'a [u8], mime_type: &str) -> (res: Result<
    TarDecoder<'a>,
    PackError,
>)
    ensures
        match res {
            Ok(decoder) => wraps_tar(mime_kind(mime_type@)) && decoder.kind() == mime_kind(
                mime_type@,
            ) && decoder.source() == reader@,
            Err(e) => !wraps_tar(mime_kind(mime_type@)) && e@
                == Failure::UnsupportedDecodingFormat,
        },
{
    decoder_for(reader, MimeKind::from_mime(mime_type))
}

} // verus!
