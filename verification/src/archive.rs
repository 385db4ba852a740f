//! Rewriting an archive without the entries that a filter list names.
//!
//! [`pack_archive`] tells what kind of archive a buffer holds and hands it to
//! the pipeline for that kind. A pipeline goes through the entries in the
//! order of the container. An entry that the filter list asks for is dropped.
//! A file whose content is itself an archive, and under whose path the list
//! names something, is rewritten in the same way before it is written back.
//! Everything else is written back as it was read.
//!
//! What a run does is stated by [`pack_spec`], a function of the input bytes,
//! the filter list, the compression level and the number of malformed tar
//! entries that may be skipped. The executable functions are proved against
//! it.

use crate::codec::{decoded, decoder_for, encoded, same_outcome, TarEncoder};
use crate::error::{valid_level, Failure, PackError};
use crate::filter::{
    consume, consumed, has_match, retain_inner_vec, scoped, specifiers, unscoped,
};
use crate::sniff::{infer_input_file, inferred, mime_kind, sniff, sniffed, MimeKind};
use crate::tar_io::{
    cursor_steps, entry_item, entry_meta, entry_read, header_with_size, resized_header,
    sink_records, tar_accepts, tar_append_data, tar_append_link_name, tar_append_link_path,
    tar_bytes, tar_cursor, tar_finish, tar_next, tar_open, tar_sink, tar_steps, TarEntry, TarItem,
    TarRecord, TarSink, TarStep, TarTarget,
};
use crate::zip_io::{
    sink_items, source_items, zip_accepts, zip_add_directory, zip_add_file, zip_bytes,
    zip_content, zip_finish, zip_items, zip_len, zip_meta, zip_open, zip_sink, ZipItem,
    ZipRecord, ZipSink,
};
use vstd::prelude::*;

verus! {

/// How many archives may lie inside one another below the outermost one.
pub const MAX_NESTING: usize = 64;

/// The permission bits given to a zip entry that brings none.
pub const DEFAULT_PERMISSIONS: u32 = 0o777;

/// The date given to a zip entry that brings no valid time, as the format
/// packs it: the first day of 1980.
pub const DEFAULT_DATE: u16 = 0x21;

/// The time of day given to a zip entry that brings no valid time: midnight.
pub const DEFAULT_TIME: u16 = 0;

/// The tar type byte of a directory.
pub const TYPE_DIRECTORY: u8 = 53;

/// The tar type bytes of entries that carry content: regular, character
/// device, block device, fifo, contiguous, long name, sparse, global extended
/// header, extended header.
pub const TYPE_REGULAR: u8 = 48;

pub const TYPE_CHAR: u8 = 51;

pub const TYPE_BLOCK: u8 = 52;

pub const TYPE_FIFO: u8 = 54;

pub const TYPE_CONTINUOUS: u8 = 55;

pub const TYPE_LONG_NAME: u8 = 76;

pub const TYPE_SPARSE: u8 = 83;

pub const TYPE_GLOBAL_HEADER: u8 = 103;

pub const TYPE_EXTENDED_HEADER: u8 = 120;

/// The tar type bytes of links: hard link, symbolic link, long link.
pub const TYPE_LINK: u8 = 49;

pub const TYPE_SYMLINK: u8 = 50;

pub const TYPE_LONG_LINK: u8 = 75;

/// How a tar entry is treated.
#[derive(Clone, Copy, Debug, PartialEq, Eq, Structural)]
pub enum TarClass {
    /// Written back as an empty directory entry.
    Directory,
    /// Read, looked into, and written back with its content.
    Content,
    /// Written back with its link target.
    Link,
    /// Left out.
    Other,
}

/// The treatment that a type byte calls for.
pub open spec fn tar_class(kind: u8) -> TarClass {
    if kind == TYPE_DIRECTORY {
        TarClass::Directory
    } else if kind == TYPE_REGULAR || kind == TYPE_SPARSE || kind == TYPE_CONTINUOUS || kind
        == TYPE_FIFO || kind == TYPE_CHAR || kind == TYPE_BLOCK || kind == TYPE_LONG_NAME || kind
        == TYPE_GLOBAL_HEADER || kind == TYPE_EXTENDED_HEADER {
        TarClass::Content
    } else if kind == TYPE_SYMLINK || kind == TYPE_LINK || kind == TYPE_LONG_LINK {
        TarClass::Link
    } else {
        TarClass::Other
    }
}

/// The permission bits that a zip entry is written with.
pub open spec fn permissions(mode: Option<u32>) -> u32 {
    match mode {
        Some(bits) => bits,
        None => DEFAULT_PERMISSIONS,
    }
}

/// The time that a zip entry is written with: its own, or the first moment of
/// 1980 where it brings none.
pub open spec fn stamp(modified: Option<(u16, u16)>) -> (u16, u16) {
    match modified {
        Some(parts) => parts,
        None => (DEFAULT_DATE, DEFAULT_TIME),
    }
}

/// The level that a zip entry is written with: none where its method is to
/// store the content as it is, which takes no level; else the level of the
/// run.
pub open spec fn level_for(stored: bool, level: u32) -> Option<u32> {
    if stored {
        None
    } else {
        Some(level)
    }
}

/// How a run ends: the filter list and the number of skips that are left, and
/// the bytes written or the failure.
pub struct Packed {
    pub filters: Seq<Seq<char>>,
    pub skips: usize,
    pub outcome: Result<Seq<u8>, Failure>,
}

/// How the look into one entry's content ends: the filter list and the number
/// of skips that are left, and the content to write together with whether it
/// was rewritten, or the failure.
pub struct Inner {
    pub filters: Seq<Seq<char>>,
    pub skips: usize,
    pub outcome: Result<(Seq<u8>, bool), Failure>,
}

/// Where a pipeline stands between two entries: the filter list and the
/// number of skips that are left, the records written so far, and the failure
/// if there was one.
pub struct Stage<R> {
    pub filters: Seq<Seq<char>>,
    pub skips: usize,
    pub records: Seq<R>,
    pub failure: Option<Failure>,
}

/// A run that ends in failure.
pub open spec fn failed(filters: Seq<Seq<char>>, skips: usize, failure: Failure) -> Packed {
    Packed { filters, skips, outcome: Err(failure) }
}

/// What becomes of a buffer: the pipeline of its kind rewrites it; a buffer
/// that is no archive of a supported kind is refused.
pub open spec fn pack_spec(
    input: Seq<u8>,
    filters: Seq<Seq<char>>,
    level: u32,
    skips: usize,
    depth: nat,
) -> Packed
    decreases depth, 5nat, 0nat,
{
    match inferred(input) {
        Err(failure) => failed(filters, skips, failure),
        Ok(mime) => match mime_kind(mime) {
            MimeKind::Zip => zip_spec(input, filters, level, skips, depth),
            MimeKind::Unsupported => failed(
                filters,
                skips,
                Failure::UnsupportedFileType(Some(mime)),
            ),
            kind => tar_spec(input, filters, level, skips, kind, depth),
        },
    }
}

/// What becomes of the content of a file entry at `path`. Content that is an
/// archive is rewritten with the specifiers that lie under `path`, which leave
/// the list; where none lies under it, and where the content is no archive, it
/// stays as it is.
pub open spec fn nested(
    data: Seq<u8>,
    path: Seq<char>,
    filters: Seq<Seq<char>>,
    level: u32,
    skips: usize,
    depth: nat,
) -> Inner
    decreases depth, 0nat, 0nat,
{
    if sniffed(data) == MimeKind::Unsupported {
        Inner { filters, skips, outcome: Ok((data, false)) }
    } else if scoped(filters, path).len() == 0 {
        Inner { filters: unscoped(filters, path), skips, outcome: Ok((data, false)) }
    } else if depth == 0 {
        Inner { filters: unscoped(filters, path), skips, outcome: Err(Failure::NestingTooDeep) }
    } else {
        let inner = pack_spec(data, scoped(filters, path), level, skips, (depth - 1) as nat);
        Inner {
            filters: unscoped(filters, path),
            skips: inner.skips,
            outcome: match inner.outcome {
                Ok(bytes) => Ok((bytes, true)),
                Err(failure) => Err(failure),
            },
        }
    }
}

/// The stage after a record was offered to the container: the record is
/// written where the container takes it; the run fails where it does not.
pub open spec fn offered<R>(
    filters: Seq<Seq<char>>,
    skips: usize,
    records: Seq<R>,
    record: R,
    taken: bool,
) -> Stage<R> {
    if taken {
        Stage { filters, skips, records: records.push(record), failure: None }
    } else {
        Stage { filters, skips, records, failure: Some(Failure::ContainerFailure) }
    }
}

/// Where a link points that is written back: to the link name that its
/// header holds, and to the header's own path where it holds none.
pub open spec fn link_target(has_link_name: bool) -> TarTarget {
    if has_link_name {
        TarTarget::LinkName
    } else {
        TarTarget::OwnPath
    }
}

/// The stage after an entry of a tar stream. An entry whose path cannot be
/// read fails the run. An entry that a specifier matches is left out. Of the
/// others a directory is written back without content, a link with its target,
/// an entry with content with its content, looked into; an entry of another
/// type is left out.
pub open spec fn tar_item_step(
    item: TarItem,
    filters: Seq<Seq<char>>,
    skips: usize,
    records: Seq<TarRecord>,
    level: u32,
    depth: nat,
) -> Stage<TarRecord>
    decreases depth, 1nat, 0nat,
{
    if item.path is None {
        Stage { filters, skips, records, failure: Some(Failure::ContainerFailure) }
    } else {
        let path = item.path->0;
        let left = consumed(filters, path);
        if has_match(filters, path) {
            Stage { filters: left, skips, records, failure: None }
        } else {
            match tar_class(item.kind) {
                TarClass::Directory => {
                    let record = TarRecord {
                        target: TarTarget::NoLink,
                        header: resized_header(item.header, 0),
                        path,
                        data: Seq::empty(),
                    };
                    offered(left, skips, records, record, tar_accepts(record))
                },
                TarClass::Link => {
                    if item.link_name is None || !item.own_path {
                        Stage { filters: left, skips, records, failure: Some(Failure::ContainerFailure) }
                    } else {
                        let record = TarRecord {
                            target: link_target(item.link_name->0),
                            header: item.header,
                            path,
                            data: Seq::empty(),
                        };
                        offered(left, skips, records, record, tar_accepts(record))
                    }
                },
                TarClass::Other => Stage { filters: left, skips, records, failure: None },
                TarClass::Content => {
                    if item.size is None {
                        Stage { filters: left, skips, records, failure: Some(Failure::ContainerFailure) }
                    } else if item.size->0 > isize::MAX {
                        Stage { filters: left, skips, records, failure: Some(Failure::EntryTooLarge) }
                    } else if item.data is None {
                        Stage { filters: left, skips, records, failure: Some(Failure::ContainerFailure) }
                    } else {
                        let inner = nested(item.data->0, path, left, level, skips, depth);
                        match inner.outcome {
                            Err(failure) => Stage {
                                filters: inner.filters,
                                skips: inner.skips,
                                records,
                                failure: Some(failure),
                            },
                            Ok((content, rewritten)) => {
                                let record = TarRecord {
                                    target: TarTarget::NoLink,
                                    header: if rewritten {
                                        resized_header(item.header, content.len() as u64)
                                    } else {
                                        item.header
                                    },
                                    path,
                                    data: content,
                                };
                                offered(
                                    inner.filters,
                                    inner.skips,
                                    records,
                                    record,
                                    tar_accepts(record),
                                )
                            },
                        }
                    }
                },
            }
        }
    }
}

/// The stage after a step of a tar stream. A malformed entry is skipped while
/// skips are left; where none is left the run fails.
pub open spec fn tar_step(
    step: TarStep,
    filters: Seq<Seq<char>>,
    skips: usize,
    records: Seq<TarRecord>,
    level: u32,
    depth: nat,
) -> Stage<TarRecord>
    decreases depth, 2nat, 0nat,
{
    match step {
        TarStep::Malformed => if skips > 0 {
            Stage { filters, skips: (skips - 1) as usize, records, failure: None }
        } else {
            Stage { filters, skips, records, failure: Some(Failure::MalformedEntry) }
        },
        TarStep::Entry(item) => tar_item_step(item, filters, skips, records, level, depth),
    }
}

/// Where a tar pipeline stands after the steps that are left: at the first
/// failure, or past the last step.
pub open spec fn tar_walk(
    steps: Seq<TarStep>,
    filters: Seq<Seq<char>>,
    skips: usize,
    records: Seq<TarRecord>,
    level: u32,
    depth: nat,
) -> Stage<TarRecord>
    decreases depth, 3nat, steps.len(),
{
    if steps.len() == 0 {
        Stage { filters, skips, records, failure: None }
    } else {
        let stage = tar_step(steps[0], filters, skips, records, level, depth);
        if stage.failure is Some {
            stage
        } else {
            tar_walk(steps.drop_first(), stage.filters, stage.skips, stage.records, level, depth)
        }
    }
}

/// The stream that a tar pipeline hands back for the records it has written:
/// the builder's bytes, wrapped by the codec of `kind`.
pub open spec fn tar_sealed(records: Seq<TarRecord>, kind: MimeKind, level: u32) -> Result<
    Seq<u8>,
    Failure,
> {
    match tar_bytes(records) {
        None => Err(Failure::ContainerFailure),
        Some(raw) => encoded(kind, level, raw),
    }
}

/// How a tar pipeline ends that stands at `stage`.
pub open spec fn tar_finished(stage: Stage<TarRecord>, kind: MimeKind, level: u32) -> Packed {
    Packed {
        filters: stage.filters,
        skips: stage.skips,
        outcome: match stage.failure {
            Some(failure) => Err(failure),
            None => tar_sealed(stage.records, kind, level),
        },
    }
}

/// What the tar pipeline makes of a buffer of kind `kind`.
pub open spec fn tar_spec(
    input: Seq<u8>,
    filters: Seq<Seq<char>>,
    level: u32,
    skips: usize,
    kind: MimeKind,
    depth: nat,
) -> Packed
    decreases depth, 4nat, 0nat,
{
    match decoded(kind, input) {
        Err(failure) => failed(filters, skips, failure),
        Ok(stream) => match tar_steps(stream) {
            None => failed(filters, skips, Failure::ContainerFailure),
            Some(steps) => tar_finished(
                tar_walk(steps, filters, skips, Seq::empty(), level, depth),
                kind,
                level,
            ),
        },
    }
}

/// The stage after an entry of a zip container. An entry that cannot be
/// opened fails the run. An entry that a specifier matches is left out. Of the
/// others a directory is written back without content; every other entry is a
/// file: its content is read, looked into, and written back. Each is written
/// with its method, permission bits and time.
pub open spec fn zip_step(
    item: ZipItem,
    filters: Seq<Seq<char>>,
    skips: usize,
    records: Seq<ZipRecord>,
    level: u32,
    depth: nat,
) -> Stage<ZipRecord>
    decreases depth, 1nat, 0nat,
{
    if item.head is None {
        Stage { filters, skips, records, failure: Some(Failure::ContainerFailure) }
    } else {
        let head = item.head->0;
        let left = consumed(filters, head.name);
        if has_match(filters, head.name) {
            Stage { filters: left, skips, records, failure: None }
        } else if head.dir {
            let record = ZipRecord {
                dir: true,
                name: head.name,
                method: head.method,
                modified: stamp(head.modified),
                mode: permissions(head.mode),
                level: level_for(head.stored, level),
                data: Seq::empty(),
            };
            offered(left, skips, records, record, zip_accepts(records, record))
        } else if head.size > isize::MAX {
            Stage { filters: left, skips, records, failure: Some(Failure::EntryTooLarge) }
        } else if item.data is None {
            Stage { filters: left, skips, records, failure: Some(Failure::ContainerFailure) }
        } else {
            let inner = nested(item.data->0, head.name, left, level, skips, depth);
            match inner.outcome {
                Err(failure) => Stage {
                    filters: inner.filters,
                    skips: inner.skips,
                    records,
                    failure: Some(failure),
                },
                Ok((content, rewritten)) => {
                    let record = ZipRecord {
                        dir: false,
                        name: head.name,
                        method: head.method,
                        modified: stamp(head.modified),
                        mode: permissions(head.mode),
                        level: level_for(head.stored, level),
                        data: content,
                    };
                    offered(
                        inner.filters,
                        inner.skips,
                        records,
                        record,
                        zip_accepts(records, record),
                    )
                },
            }
        }
    }
}

/// Where a zip pipeline stands after the entries from `index` on: at the
/// first failure, or past the last entry.
pub open spec fn zip_walk(
    items: Seq<ZipItem>,
    index: int,
    filters: Seq<Seq<char>>,
    skips: usize,
    records: Seq<ZipRecord>,
    level: u32,
    depth: nat,
) -> Stage<ZipRecord>
    decreases depth, 3nat, items.len() - index,
{
    if index < 0 || index >= items.len() {
        Stage { filters, skips, records, failure: None }
    } else {
        let stage = zip_step(items[index], filters, skips, records, level, depth);
        if stage.failure is Some {
            stage
        } else {
            zip_walk(items, index + 1, stage.filters, stage.skips, stage.records, level, depth)
        }
    }
}

/// The container that a zip pipeline hands back for the records it has
/// written.
pub open spec fn zip_sealed(records: Seq<ZipRecord>) -> Result<Seq<u8>, Failure> {
    match zip_bytes(records) {
        None => Err(Failure::ContainerFailure),
        Some(bytes) => Ok(bytes),
    }
}

/// How a zip pipeline ends that stands at `stage`.
pub open spec fn zip_finished(stage: Stage<ZipRecord>) -> Packed {
    Packed {
        filters: stage.filters,
        skips: stage.skips,
        outcome: match stage.failure {
            Some(failure) => Err(failure),
            None => zip_sealed(stage.records),
        },
    }
}

/// What the zip pipeline makes of a buffer.
pub open spec fn zip_spec(
    input: Seq<u8>,
    filters: Seq<Seq<char>>,
    level: u32,
    skips: usize,
    depth: nat,
) -> Packed
    decreases depth, 4nat, 0nat,
{
    match zip_items(input) {
        None => failed(filters, skips, Failure::ContainerFailure),
        Some(items) => zip_finished(
            zip_walk(items, 0, filters, skips, Seq::empty(), level, depth),
        ),
    }
}

/// Whether a run ended as `expected` says: with that filter list, that many
/// skips left, and those bytes or that failure.
pub open spec fn ended(
    res: Result<Vec<u8>, PackError>,
    filters: Vec<String>,
    skips: usize,
    expected: Packed,
) -> bool {
    same_outcome(res, expected.outcome) && specifiers(filters@) == expected.filters && skips
        == expected.skips
}

/// Whether a pipeline stands where `expected` says after an entry: with that
/// filter list and that many skips left, and with those records written or
/// with that failure.
pub open spec fn staged<R>(
    res: Result<(), PackError>,
    filters: Vec<String>,
    skips: usize,
    records: Seq<R>,
    expected: Stage<R>,
) -> bool {
    specifiers(filters@) == expected.filters && skips == expected.skips && match res {
        Ok(_) => expected.failure is None && records == expected.records,
        Err(e) => expected.failure == Some(e@),
    }
}

/// The treatment that a tar type byte calls for.
pub fn classify(kind: u8) -> (class: TarClass)
    ensures
        class == tar_class(kind),
{
    if kind == TYPE_DIRECTORY {
        TarClass::Directory
    } else if kind == TYPE_REGULAR || kind == TYPE_SPARSE || kind == TYPE_CONTINUOUS || kind
        == TYPE_FIFO || kind == TYPE_CHAR || kind == TYPE_BLOCK || kind == TYPE_LONG_NAME || kind
        == TYPE_GLOBAL_HEADER || kind == TYPE_EXTENDED_HEADER {
        TarClass::Content
    } else if kind == TYPE_SYMLINK || kind == TYPE_LINK || kind == TYPE_LONG_LINK {
        TarClass::Link
    } else {
        TarClass::Other
    }
}

/// Rewrites `input` without the entries that `excluded_paths` names, down
/// into the archives that it holds.
///
/// `skips` is the number of malformed tar entries that may be left out. Each
/// one that is left out is taken from it; a malformed entry that is met when
/// none is left ends the run with `MalformedEntry`.
pub fn pack_archive(
    input: Vec<u8>,
    excluded_paths: &mut Vec<String>,
    compression_level: u32,
    skips: &mut usize,
) -> (res: Result<Vec<u8>, PackError>)
    requires
        valid_level(compression_level),
    ensures
        ended(
            res,
            *final(excluded_paths),
            *final(skips),
            pack_spec(
                input@,
                specifiers(old(excluded_paths)@),
                compression_level,
                *old(skips),
                MAX_NESTING as nat,
            ),
        ),
{
    pack_nested(input, excluded_paths, compression_level, skips, MAX_NESTING)
}

/// Rewrites `input` as [`pack_archive`] does, with room for `depth` archives
/// inside one another below it.
pub fn pack_nested(
    input: Vec<u8>,
    excluded_paths: &mut Vec<String>,
    compression_level: u32,
    skips: &mut usize,
    depth: usize,
) -> (res: Result<Vec<u8>, PackError>)
    requires
        valid_level(compression_level),
    ensures
        ended(
            res,
            *final(excluded_paths),
            *final(skips),
            pack_spec(
                input@,
                specifiers(old(excluded_paths)@),
                compression_level,
                *old(skips),
                depth as nat,
            ),
        ),
    decreases depth, 5nat, 0nat,
{
    match infer_input_file(input.as_slice()) {
        Err(e) => Err(e),
        Ok(mime) => {
            let kind = MimeKind::from_mime(mime.as_str());
            match kind {
                MimeKind::Zip => encode_zip(input, excluded_paths, compression_level, skips, depth),
                MimeKind::Unsupported => Err(PackError::UnsupportedFileType(Some(mime))),
                _ => encode_tar(
                    input.as_slice(),
                    excluded_paths,
                    compression_level,
                    kind,
                    skips,
                    depth,
                ),
            }
        },
    }
}

/// Looks into the content of a file entry at `path`. Content that is an
/// archive is rewritten with the specifiers that lie under `path`; the flag
/// tells whether that was done.
pub fn handle_inner_archive(
    input: Vec<u8>,
    excluded_paths: &mut Vec<String>,
    path: &str,
    compression_level: u32,
    skips: &mut usize,
    depth: usize,
) -> (res: Result<(Vec<u8>, bool), PackError>)
    requires
        valid_level(compression_level),
    ensures
        ({
            let inner = nested(
                input@,
                path@,
                specifiers(old(excluded_paths)@),
                compression_level,
                *old(skips),
                depth as nat,
            );
            specifiers(final(excluded_paths)@) == inner.filters && *final(skips) == inner.skips
                && match res {
                Ok((bytes, rewritten)) => inner.outcome == Ok::<(Seq<u8>, bool), Failure>(
                    (bytes@, rewritten),
                ),
                Err(e) => inner.outcome == Err::<(Seq<u8>, bool), Failure>(e@),
            }
        }),
    decreases depth, 0nat, 0nat,
{
    if sniff(input.as_slice()) != MimeKind::Unsupported {
        let mut inside = retain_inner_vec(excluded_paths, path);
        if inside.len() > 0 {
            if depth == 0 {
                return Err(PackError::NestingTooDeep);
            }
            return match pack_nested(input, &mut inside, compression_level, skips, depth - 1) {
                Ok(bytes) => Ok((bytes, true)),
                Err(e) => Err(e),
            };
        }
    }
    Ok((input, false))
}

/// Handles one entry of a tar stream: drops it, or appends to `sink` what is
/// to be written for it.
fn process_tar_entry(
    entry: TarEntry,
    sink: &mut TarSink,
    excluded_paths: &mut Vec<String>,
    compression_level: u32,
    skips: &mut usize,
    depth: usize,
) -> (res: Result<(), PackError>)
    requires
        valid_level(compression_level),
    ensures
        staged(
            res,
            *final(excluded_paths),
            *final(skips),
            sink_records(*final(sink)),
            tar_item_step(
                entry_item(entry),
                specifiers(old(excluded_paths)@),
                *old(skips),
                sink_records(*old(sink)),
                compression_level,
                depth as nat,
            ),
        ),
    decreases depth, 1nat, 0nat,
{
    let meta = match entry_meta(&entry) {
        Some(meta) => meta,
        None => {
            return Err(PackError::ContainerFailure);
        },
    };
    if consume(excluded_paths, meta.path.as_str()) {
        return Ok(());
    }
    let taken = match classify(meta.kind) {
        TarClass::Directory => {
            let header = header_with_size(meta.header.as_slice(), 0);
            let empty: Vec<u8> = Vec::new();
            tar_append_data(sink, header.as_slice(), meta.path.as_str(), empty.as_slice())
        },
        TarClass::Link => {
            let has_link_name = match meta.link_name {
                Some(has_link_name) => has_link_name,
                None => {
                    return Err(PackError::ContainerFailure);
                },
            };
            if !meta.own_path {
                return Err(PackError::ContainerFailure);
            }
            if has_link_name {
                tar_append_link_name(sink, meta.header.as_slice(), meta.path.as_str())
            } else {
                tar_append_link_path(sink, meta.header.as_slice(), meta.path.as_str())
            }
        },
        TarClass::Other => true,
        TarClass::Content => {
            let size = match meta.size {
                Some(size) => size,
                None => {
                    return Err(PackError::ContainerFailure);
                },
            };
            if size > isize::MAX as u64 {
                return Err(PackError::EntryTooLarge);
            }
            let data = match entry_read(entry, size as usize) {
                Some(data) => data,
                None => {
                    return Err(PackError::ContainerFailure);
                },
            };
            let (content, rewritten) = match handle_inner_archive(
                data,
                excluded_paths,
                meta.path.as_str(),
                compression_level,
                skips,
                depth,
            ) {
                Ok(inner) => inner,
                Err(e) => {
                    return Err(e);
                },
            };
            if rewritten {
                let header = header_with_size(meta.header.as_slice(), content.len() as u64);
                tar_append_data(sink, header.as_slice(), meta.path.as_str(), content.as_slice())
            } else {
                tar_append_data(
                    sink,
                    meta.header.as_slice(),
                    meta.path.as_str(),
                    content.as_slice(),
                )
            }
        },
    };
    if taken {
        Ok(())
    } else {
        Err(PackError::ContainerFailure)
    }
}

/// Rewrites a tar stream that comes plain or wrapped, as `kind` says.
pub fn encode_tar(
    input: &[u8],
    excluded_paths: &mut Vec<String>,
    compression_level: u32,
    kind: MimeKind,
    skips: &mut usize,
    depth: usize,
) -> (res: Result<Vec<u8>, PackError>)
    requires
        valid_level(compression_level),
    ensures
        ended(
            res,
            *final(excluded_paths),
            *final(skips),
            tar_spec(
                input@,
                specifiers(old(excluded_paths)@),
                compression_level,
                *old(skips),
                kind,
                depth as nat,
            ),
        ),
    decreases depth, 4nat, 0nat,
{
    let ghost expected = tar_spec(
        input@,
        specifiers(excluded_paths@),
        compression_level,
        *skips,
        kind,
        depth as nat,
    );
    let decoder = match decoder_for(input, kind) {
        Ok(decoder) => decoder,
        Err(e) => {
            return Err(e);
        },
    };
    let encoder = match TarEncoder::for_kind(kind, compression_level) {
        Ok(encoder) => encoder,
        Err(e) => {
            return Err(e);
        },
    };
    let stream = match decoder.decode() {
        Ok(stream) => stream,
        Err(e) => {
            return Err(e);
        },
    };
    let mut source = tar_open(stream);
    let mut cursor = match tar_cursor(&mut source) {
        Some(cursor) => cursor,
        None => {
            return Err(PackError::ContainerFailure);
        },
    };
    let mut sink = tar_sink();
    loop
        invariant
            valid_level(compression_level),
            expected == tar_spec(
                input@,
                specifiers(old(excluded_paths)@),
                compression_level,
                *old(skips),
                kind,
                depth as nat,
            ),
            expected == tar_finished(
                tar_walk(
                    cursor_steps(cursor),
                    specifiers(excluded_paths@),
                    *skips,
                    sink_records(sink),
                    compression_level,
                    depth as nat,
                ),
                kind,
                compression_level,
            ),
        ensures
            cursor_steps(cursor).len() == 0,
        decreases cursor_steps(cursor).len(),
    {
        let ghost steps = cursor_steps(cursor);
        let ghost filters_before = specifiers(excluded_paths@);
        let ghost skips_before = *skips;
        let ghost records_before = sink_records(sink);
        let ghost stage = tar_step(
            steps[0],
            filters_before,
            skips_before,
            records_before,
            compression_level,
            depth as nat,
        );
        match tar_next(&mut cursor) {
            None => {
                break;
            },
            Some(None) => {
                if *skips > 0 {
                    *skips = *skips - 1;
                } else {
                    return Err(PackError::MalformedEntry);
                }
            },
            Some(Some(entry)) => {
                match process_tar_entry(
                    entry,
                    &mut sink,
                    excluded_paths,
                    compression_level,
                    skips,
                    depth,
                ) {
                    Ok(_) => {
                        assert(stage.failure is None);
                    },
                    Err(e) => {
                        assert(stage.failure == Some(e@));
                        return Err(e);
                    },
                }
            },
        }
    }
    let raw = match tar_finish(sink) {
        Some(raw) => raw,
        None => {
            return Err(PackError::ContainerFailure);
        },
    };
    encoder.encode(raw.as_slice())
}

/// Handles the entry at `index` of a zip container: drops it, or adds to
/// `sink` what is to be written for it.
fn process_zip_entry(
    source: &mut zip::ZipArchive<std::io::Cursor<Vec<u8>>>,
    index: usize,
    sink: &mut ZipSink,
    excluded_paths: &mut Vec<String>,
    compression_level: u32,
    skips: &mut usize,
    depth: usize,
) -> (res: Result<(), PackError>)
    requires
        valid_level(compression_level),
        index < source_items(*old(source)).len(),
    ensures
        source_items(*final(source)) == source_items(*old(source)),
        staged(
            res,
            *final(excluded_paths),
            *final(skips),
            sink_items(*final(sink)),
            zip_step(
                source_items(*old(source))[index as int],
                specifiers(old(excluded_paths)@),
                *old(skips),
                sink_items(*old(sink)),
                compression_level,
                depth as nat,
            ),
        ),
    decreases depth, 1nat, 0nat,
{
    let meta = match zip_meta(source, index) {
        Some(meta) => meta,
        None => {
            return Err(PackError::ContainerFailure);
        },
    };
    if consume(excluded_paths, meta.name.as_str()) {
        return Ok(());
    }
    let mode = match meta.mode {
        Some(bits) => bits,
        None => DEFAULT_PERMISSIONS,
    };
    let modified = match meta.modified {
        Some(parts) => parts,
        None => (DEFAULT_DATE, DEFAULT_TIME),
    };
    let level = if meta.stored {
        None
    } else {
        Some(compression_level)
    };
    let taken = if meta.dir {
        zip_add_directory(sink, meta.name.as_str(), meta.method, modified, mode, level)
    } else {
        if meta.size > isize::MAX as u64 {
            return Err(PackError::EntryTooLarge);
        }
        let data = match zip_content(source, index, meta.size as usize) {
            Some(data) => data,
            None => {
                return Err(PackError::ContainerFailure);
            },
        };
        let (content, _) = match handle_inner_archive(
            data,
            excluded_paths,
            meta.name.as_str(),
            compression_level,
            skips,
            depth,
        ) {
            Ok(inner) => inner,
            Err(e) => {
                return Err(e);
            },
        };
        zip_add_file(
            sink,
            meta.name.as_str(),
            meta.method,
            modified,
            mode,
            level,
            content.as_slice(),
        )
    };
    if taken {
        Ok(())
    } else {
        Err(PackError::ContainerFailure)
    }
}

/// Rewrites a zip container.
pub fn encode_zip(
    input: Vec<u8>,
    excluded_paths: &mut Vec<String>,
    compression_level: u32,
    skips: &mut usize,
    depth: usize,
) -> (res: Result<Vec<u8>, PackError>)
    requires
        valid_level(compression_level),
    ensures
        ended(
            res,
            *final(excluded_paths),
            *final(skips),
            zip_spec(
                input@,
                specifiers(old(excluded_paths)@),
                compression_level,
                *old(skips),
                depth as nat,
            ),
        ),
    decreases depth, 4nat, 0nat,
{
    let ghost expected = zip_spec(
        input@,
        specifiers(excluded_paths@),
        compression_level,
        *skips,
        depth as nat,
    );
    let mut source = match zip_open(input) {
        Some(source) => source,
        None => {
            return Err(PackError::ContainerFailure);
        },
    };
    let ghost items = source_items(source);
    let mut sink = zip_sink();
    let count = zip_len(&source);
    let mut index: usize = 0;
    while index < count
        invariant
            valid_level(compression_level),
            index <= count,
            count == items.len(),
            source_items(source) == items,
            expected == zip_spec(
                input@,
                specifiers(old(excluded_paths)@),
                compression_level,
                *old(skips),
                depth as nat,
            ),
            expected == zip_finished(
                zip_walk(
                    items,
                    index as int,
                    specifiers(excluded_paths@),
                    *skips,
                    sink_items(sink),
                    compression_level,
                    depth as nat,
                ),
            ),
        decreases count - index,
    {
        match process_zip_entry(
            &mut source,
            index,
            &mut sink,
            excluded_paths,
            compression_level,
            skips,
            depth,
        ) {
            Ok(_) => {},
            Err(e) => {
                return Err(e);
            },
        }
        index = index + 1;
    }
    match zip_finish(sink) {
        Some(bytes) => Ok(bytes),
        None => Err(PackError::ContainerFailure),
    }
}

} // verus!
