//! Reading and writing zip containers through the `zip` crate.
//!
//! Nothing of the zip format is restated here. What the crate's reader finds
//! in a buffer is named by [`zip_items`], what its writer makes of a list of
//! records by [`zip_bytes`]; the handles of this module carry those names
//! through the calls that the rewriting of a container makes.

use crate::codec::same_bytes;
use vstd::prelude::*;

verus! {

/// `std::io::Cursor`, which the reader and the writer work on.
#[verifier::external_type_specification]
#[verifier::external_body]
#[verifier::reject_recursive_types(T)]
pub struct ExCursor<T>(std::io::Cursor<T>);

/// `zip::ZipArchive`, a container opened for reading.
#[verifier::external_type_specification]
#[verifier::external_body]
#[verifier::reject_recursive_types(R)]
pub struct ExZipArchive<R>(zip::ZipArchive<R>);

/// `zip::CompressionMethod`, carried from an entry read to the entry written.
#[verifier::external_type_specification]
#[verifier::external_body]
pub struct ExCompressionMethod(zip::CompressionMethod);

/// A container that is being written: `zip::ZipWriter` over a buffer.
#[verifier::external_body]
pub struct ZipSink {
    inner: zip::ZipWriter<std::io::Cursor<Vec<u8>>>,
}

/// What the reader tells of an entry before its content is read.
pub struct ZipHead {
    pub name: Seq<char>,
    pub method: zip::CompressionMethod,
    /// Whether the method is to store the content as it is.
    pub stored: bool,
    /// The date and the time of the last change, as the container's format
    /// packs them; `None` where the entry has no valid ones.
    pub modified: Option<(u16, u16)>,
    pub mode: Option<u32>,
    pub dir: bool,
    pub size: u64,
}

/// One entry of a container, as the reader presents it.
pub struct ZipItem {
    /// What the reader tells of the entry; `None` where it cannot be opened or
    /// its name cannot be given.
    pub head: Option<ZipHead>,
    /// What reading exactly the declared size yields; `None` where that read
    /// fails.
    pub data: Option<Seq<u8>>,
}

/// One record handed to the writer.
pub struct ZipRecord {
    /// Whether the record is a directory.
    pub dir: bool,
    pub name: Seq<char>,
    pub method: zip::CompressionMethod,
    /// The date and the time of the last change, as the container's format
    /// packs them.
    pub modified: (u16, u16),
    /// The permission bits.
    pub mode: u32,
    /// The compression level, if one is set.
    pub level: Option<u32>,
    /// The content. A directory has none.
    pub data: Seq<u8>,
}

/// [`ZipHead`] as executable code holds it.
pub struct ZipMeta {
    pub name: String,
    pub method: zip::CompressionMethod,
    pub stored: bool,
    pub modified: Option<(u16, u16)>,
    pub mode: Option<u32>,
    pub dir: bool,
    pub size: u64,
}

impl View for ZipMeta {
    type V = ZipHead;

    open spec fn view(&self) -> ZipHead {
        ZipHead {
            name: self.name@,
            method: self.method,
            stored: self.stored,
            modified: self.modified,
            mode: self.mode,
            dir: self.dir,
            size: self.size,
        }
    }
}

/// The entries that `zip::ZipArchive` finds in a buffer, by index; `None`
/// where it cannot open the buffer.
pub uninterp spec fn zip_items(bytes: Seq<u8>) -> Option<Seq<ZipItem>>;

/// The entries of an opened container, by index.
pub uninterp spec fn source_items(source: zip::ZipArchive<std::io::Cursor<Vec<u8>>>) -> Seq<
    ZipItem,
>;

/// The records that a sink holds, in the order in which they were added.
pub uninterp spec fn sink_items(sink: ZipSink) -> Seq<ZipRecord>;

/// Whether a writer that holds `held` takes `record`: whether the making of
/// its time and `add_directory`, or `start_file` and the writing of the
/// content, return without error.
pub uninterp spec fn zip_accepts(held: Seq<ZipRecord>, record: ZipRecord) -> bool;

/// The container that the writer has written when it is finished after these
/// records; `None` where finishing fails.
pub uninterp spec fn zip_bytes(records: Seq<ZipRecord>) -> Option<Seq<u8>>;

/// Whether `meta` holds what was expected of it.
pub open spec fn same_head(meta: Option<ZipMeta>, expected: Option<ZipHead>) -> bool {
    match meta {
        Some(m) => expected == Some(m@),
        None => expected is None,
    }
}

/// Calls `zip::ZipArchive::new` on a cursor over `bytes`.
#[verifier::external_body]
pub(crate) fn zip_open(bytes: Vec<u8>) -> (source: Option<
    zip::ZipArchive<std::io::Cursor<Vec<u8>>>,
>)
    ensures
        match source {
            Some(s) => zip_items(bytes@) == Some(source_items(s)),
            None => zip_items(bytes@) is None,
        },
{
    zip::ZipArchive::new(std::io::Cursor::new(bytes)).ok()
}

/// Calls `zip::ZipArchive::len`.
#[verifier::external_body]
pub(crate) fn zip_len(source: &zip::ZipArchive<std::io::Cursor<Vec<u8>>>) -> (len: usize)
    ensures
        len == source_items(*source).len(),
{
    source.len()
}

/// Opens the entry at `index` with `by_index` and reads its name, its
/// compression method and whether that is `Stored`, the two parts of its
/// modification time if it has a valid one, its unix mode, whether it is a
/// directory, and its declared size.
#[verifier::external_body]
pub(crate) fn zip_meta(source: &mut zip::ZipArchive<std::io::Cursor<Vec<u8>>>, index: usize) -> (meta:
    Option<ZipMeta>)
    requires
        index < source_items(*old(source)).len(),
    ensures
        source_items(*final(source)) == source_items(*old(source)),
        same_head(meta, source_items(*old(source))[index as int].head),
{
    let file = source.by_index(index).ok()?;
    Some(
        ZipMeta {
            name: file.name().ok()?.into_owned(),
            method: file.compression(),
            stored: matches!(file.compression(), zip::CompressionMethod::Stored),
            modified: file.last_modified().map(|time| (time.datepart(), time.timepart())),
            mode: file.unix_mode(),
            dir: file.is_dir(),
            size: file.size(),
        },
    )
}

/// Opens the entry at `index` with `by_index` and reads exactly `len` bytes of
/// its content with `read_exact`, where `len` is the entry's declared size.
/// What is read has that length. The length is kept to what a buffer can have.
#[verifier::external_body]
pub(crate) fn zip_content(
    source: &mut zip::ZipArchive<std::io::Cursor<Vec<u8>>>,
    index: usize,
    len: usize,
) -> (data: Option<Vec<u8>>)
    requires
        index < source_items(*old(source)).len(),
        source_items(*old(source))[index as int].head is Some,
        source_items(*old(source))[index as int].head->0.size == len,
        len <= isize::MAX,
    ensures
        source_items(*final(source)) == source_items(*old(source)),
        same_bytes(data, source_items(*old(source))[index as int].data),
        data matches Some(bytes) ==> bytes@.len() == len,
{
    let mut file = source.by_index(index).ok()?;
    let mut data = vec![0u8; len];
    std::io::Read::read_exact(&mut file, &mut data).ok()?;
    Some(data)
}

/// Wraps `zip::ZipWriter::new` over an empty buffer.
#[verifier::external_body]
pub(crate) fn zip_sink() -> (sink: ZipSink)
    ensures
        sink_items(sink) == Seq::<ZipRecord>::empty(),
{
    ZipSink { inner: zip::ZipWriter::new(std::io::Cursor::new(Vec::new())) }
}

/// Calls `zip::ZipWriter::add_directory` with options made of the level, the
/// method, the permission bits and the time that `zip::DateTime::try_from_msdos`
/// makes of the two parts. Parts that are no valid time are not taken. Where
/// the writer takes the record, the sink holds it after the others.
#[verifier::external_body]
pub(crate) fn zip_add_directory(
    sink: &mut ZipSink,
    name: &str,
    method: zip::CompressionMethod,
    modified: (u16, u16),
    mode: u32,
    level: Option<u32>,
) -> (taken: bool)
    ensures
        taken == zip_accepts(
            sink_items(*old(sink)),
            ZipRecord { dir: true, name: name@, method, modified, mode, level, data: Seq::empty() },
        ),
        taken ==> sink_items(*final(sink)) == sink_items(*old(sink)).push(
            ZipRecord { dir: true, name: name@, method, modified, mode, level, data: Seq::empty() },
        ),
{
    let Ok(time) = zip::DateTime::try_from_msdos(modified.0, modified.1) else {
        return false;
    };
    let options = zip::write::SimpleFileOptions::default()
        .compression_level(level.map(i64::from))
        .compression_method(method)
        .last_modified_time(time)
        .unix_permissions(mode);
    sink.inner.add_directory(name, options).is_ok()
}

/// Calls `zip::ZipWriter::start_file` with options made of the level, the
/// method, the permission bits and the time that `zip::DateTime::try_from_msdos`
/// makes of the two parts, and writes `data` with `write_all`. Parts that are
/// no valid time are not taken, so that the writer never puts the clock's time
/// in their place. Where the writer takes the record, the sink holds it after
/// the others.
#[verifier::external_body]
pub(crate) fn zip_add_file(
    sink: &mut ZipSink,
    name: &str,
    method: zip::CompressionMethod,
    modified: (u16, u16),
    mode: u32,
    level: Option<u32>,
    data: &[u8],
) -> (taken: bool)
    ensures
        taken == zip_accepts(
            sink_items(*old(sink)),
            ZipRecord { dir: false, name: name@, method, modified, mode, level, data: data@ },
        ),
        taken ==> sink_items(*final(sink)) == sink_items(*old(sink)).push(
            ZipRecord { dir: false, name: name@, method, modified, mode, level, data: data@ },
        ),
{
    let Ok(time) = zip::DateTime::try_from_msdos(modified.0, modified.1) else {
        return false;
    };
    let options = zip::write::SimpleFileOptions::default()
        .compression_level(level.map(i64::from))
        .compression_method(method)
        .last_modified_time(time)
        .unix_permissions(mode);
    sink.inner.start_file(name, options).is_ok() && std::io::Write::write_all(
        &mut sink.inner,
        data,
    ).is_ok()
}

/// Calls `zip::ZipWriter::finish` and takes the buffer out of its cursor.
#[verifier::external_body]
pub(crate) fn zip_finish(sink: ZipSink) -> (bytes: Option<Vec<u8>>)
    ensures
        same_bytes(bytes, zip_bytes(sink_items(sink))),
{
    sink.inner.finish().ok().map(|cursor| cursor.into_inner())
}

} // verus!
