//! Reading and writing tar streams through the `tar` crate.
//!
//! Nothing of the tar format is restated here. What the crate's reader finds
//! in a stream is named by [`tar_steps`], what its builder makes of a list of
//! records by [`tar_bytes`]; the handles of this module carry those names
//! through the calls that the rewriting of a stream makes.

use crate::codec::same_bytes;
use vstd::prelude::*;

verus! {

/// The length of a tar header block.
pub const HEADER_LEN: usize = 512;

/// One entry of a tar stream, as the reader presents it.
pub struct TarItem {
    /// The entry's path; `None` where the reader cannot give it.
    pub path: Option<Seq<char>>,
    /// The byte that tells the entry's type.
    pub kind: u8,
    /// The size that the header declares; `None` where the field is unreadable.
    pub size: Option<u64>,
    /// The header block.
    pub header: Seq<u8>,
    /// What reading exactly the declared size yields; `None` where that read
    /// fails.
    pub data: Option<Seq<u8>>,
    /// Whether the header holds a link name; `None` where the field cannot be
    /// read.
    pub link_name: Option<bool>,
    /// Whether the path that the header holds can be read.
    pub own_path: bool,
}

/// What the reader yields at one step: an entry, or the report that the
/// stream could not be parsed there.
pub enum TarStep {
    Entry(TarItem),
    Malformed,
}

/// Where a record's link points.
pub enum TarTarget {
    /// The record is no link.
    NoLink,
    /// To the link name that the record's header holds.
    LinkName,
    /// To the path that the record's header holds.
    OwnPath,
}

/// One record handed to the builder.
pub struct TarRecord {
    /// Whether the record is a link, and to what.
    pub target: TarTarget,
    /// The header block that the record starts from.
    pub header: Seq<u8>,
    /// The path to store it under.
    pub path: Seq<char>,
    /// The content. A link has none.
    pub data: Seq<u8>,
}

/// What the reader tells of an entry before its content is read.
pub struct TarMeta {
    pub path: String,
    pub kind: u8,
    pub size: Option<u64>,
    pub header: Vec<u8>,
    pub link_name: Option<bool>,
    pub own_path: bool,
}

/// A tar stream opened for reading: `tar::Archive` over the stream's bytes.
#[verifier::external_body]
pub struct TarSource {
    inner: tar::Archive<std::io::Cursor<Vec<u8>>>,
}

/// The position of a reader in its stream: `tar::Entries`.
#[verifier::external_body]
pub struct TarCursor<'a> {
    inner: tar::Entries<'a, std::io::Cursor<Vec<u8>>>,
}

/// An entry that the reader stands at: `tar::Entry`. It borrows the cursor
/// that yielded it, so that the cursor cannot move on while the entry is read.
#[verifier::external_body]
pub struct TarEntry<'c, 'a> {
    inner: tar::Entry<'a, std::io::Cursor<Vec<u8>>>,
    cursor: std::marker::PhantomData<&'c mut TarCursor<'a>>,
}

/// A tar stream that is being written: `tar::Builder` over a buffer.
#[verifier::external_body]
pub struct TarSink {
    inner: tar::Builder<Vec<u8>>,
}

/// The steps that `tar::Archive::entries` yields on a stream, in order; `None`
/// where it yields no iterator.
pub uninterp spec fn tar_steps(stream: Seq<u8>) -> Option<Seq<TarStep>>;

/// The steps that a source will yield.
pub uninterp spec fn source_steps(source: TarSource) -> Option<Seq<TarStep>>;

/// The steps that a cursor has yet to yield.
pub uninterp spec fn cursor_steps(cursor: TarCursor) -> Seq<TarStep>;

/// The entry that a handle stands for.
pub uninterp spec fn entry_item(entry: TarEntry) -> TarItem;

/// The header block `header` after `tar::Header::set_size` has written `size`
/// into it.
pub uninterp spec fn resized_header(header: Seq<u8>, size: u64) -> Seq<u8>;

/// The records that a sink holds, in the order in which they were appended.
pub uninterp spec fn sink_records(sink: TarSink) -> Seq<TarRecord>;

/// Whether the builder takes a record: whether `append_data`, or for a link
/// the reading of its target from the header and `append_link`, returns
/// without error.
pub uninterp spec fn tar_accepts(record: TarRecord) -> bool;

/// The stream that the builder has written when it is finished after these
/// records; `None` where finishing fails.
pub uninterp spec fn tar_bytes(records: Seq<TarRecord>) -> Option<Seq<u8>>;

/// Whether a malformed step, if there is one, is the last of `steps`.
pub open spec fn ends_at_malformed(steps: Seq<TarStep>) -> bool {
    forall|i: int| 0 <= i < steps.len() && (#[trigger] steps[i]) is Malformed ==> i == steps.len() - 1
}

/// Whether `meta` tells of `item` what the reader gives before the content is
/// read. No `meta` stands for an entry whose path cannot be given.
pub open spec fn describes(meta: Option<TarMeta>, item: TarItem) -> bool {
    match meta {
        Some(m) => item.path == Some(m.path@) && m.kind == item.kind && m.size == item.size
            && m.header@ == item.header && m.header@.len() == HEADER_LEN && m.link_name
            == item.link_name && m.own_path == item.own_path,
        None => item.path is None,
    }
}

/// Whether `next` is what a cursor with the steps `before` yields, and `after`
/// what it is left with: nothing at the end, else the first step, an entry
/// handle standing for the item of that step. A malformed step is the last:
/// the reader yields nothing after an error.
pub open spec fn yields(
    before: Seq<TarStep>,
    next: Option<Option<TarEntry>>,
    after: Seq<TarStep>,
) -> bool {
    match next {
        None => before.len() == 0 && after == before,
        Some(None) => before.len() == 1 && before[0] is Malformed && after == before.drop_first(),
        Some(Some(entry)) => before.len() > 0 && before[0] == TarStep::Entry(entry_item(entry))
            && after == before.drop_first(),
    }
}

/// Wraps `tar::Archive::new` over a cursor on `stream`. The contract names what
/// the archive will yield.
#[verifier::external_body]
pub(crate) fn tar_open(stream: Vec<u8>) -> (source: TarSource)
    ensures
        source_steps(source) == tar_steps(stream@),
{
    TarSource { inner: tar::Archive::new(std::io::Cursor::new(stream)) }
}

/// Calls `tar::Archive::entries`. The cursor has all the steps of the source
/// before it. A malformed step is the last of them: the iterator yields
/// nothing after an error.
#[verifier::external_body]
pub(crate) fn tar_cursor<'a>(source: &'a mut TarSource) -> (cursor: Option<TarCursor<'a>>)
    ensures
        match cursor {
            Some(c) => source_steps(*old(source)) == Some(cursor_steps(c)) && ends_at_malformed(
                cursor_steps(c),
            ),
            None => source_steps(*old(source)) is None,
        },
{
    source.inner.entries().ok().map(|inner| TarCursor { inner })
}

/// Calls `next` on `tar::Entries`: the cursor's first step is handed out and
/// the cursor is left with the others. An error of the iterator is the step
/// `Malformed`.
#[verifier::external_body]
pub(crate) fn tar_next<'c, 'a>(cursor: &'c mut TarCursor<'a>) -> (next: Option<
    Option<TarEntry<'c, 'a>>,
>)
    ensures
        yields(cursor_steps(*old(cursor)), next, cursor_steps(*final(cursor))),
{
    cursor.inner.next().map(
        |step| step.ok().map(|inner| TarEntry { inner, cursor: std::marker::PhantomData }),
    )
}

/// Reads an entry's path (`tar::Entry::path`, made a string with
/// `to_string_lossy`) and, from its header, the type byte
/// (`EntryType::as_byte`), the declared size (`Header::size`), the header
/// block (`Header::as_bytes`), whether it holds a link name
/// (`Header::link_name`) and whether its own path can be read
/// (`Header::path`).
#[verifier::external_body]
pub(crate) fn entry_meta(entry: &TarEntry) -> (meta: Option<TarMeta>)
    ensures
        describes(meta, entry_item(*entry)),
{
    let path = entry.inner.path().ok()?.to_string_lossy().into_owned();
    let header = entry.inner.header();
    Some(
        TarMeta {
            path,
            kind: header.entry_type().as_byte(),
            size: header.size().ok(),
            header: header.as_bytes().to_vec(),
            link_name: header.link_name().ok().map(|name| name.is_some()),
            own_path: header.path().is_ok(),
        },
    )
}

/// Reads exactly `len` bytes of an entry's content with `read_exact`, where
/// `len` is the size that the entry's header declares. What is read has that
/// length. The length is kept to what a buffer can have.
#[verifier::external_body]
pub(crate) fn entry_read(entry: TarEntry, len: usize) -> (data: Option<Vec<u8>>)
    requires
        entry_item(entry).size == Some(len as u64),
        len <= isize::MAX,
    ensures
        same_bytes(data, entry_item(entry).data),
        data matches Some(bytes) ==> bytes@.len() == len,
{
    let mut entry = entry;
    let mut data = vec![0u8; len];
    std::io::Read::read_exact(&mut entry.inner, &mut data).ok()?;
    Some(data)
}

/// Copies a header block and calls `tar::Header::set_size` on the copy.
#[verifier::external_body]
pub(crate) fn header_with_size(header: &[u8], size: u64) -> (resized: Vec<u8>)
    requires
        header@.len() == HEADER_LEN,
    ensures
        resized@ == resized_header(header@, size),
        resized@.len() == HEADER_LEN,
{
    let mut copy = tar::Header::from_byte_slice(header).clone();
    copy.set_size(size);
    copy.as_bytes().to_vec()
}

/// Wraps `tar::Builder::new` over an empty buffer.
#[verifier::external_body]
pub(crate) fn tar_sink() -> (sink: TarSink)
    ensures
        sink_records(sink) == Seq::<TarRecord>::empty(),
{
    TarSink { inner: tar::Builder::new(Vec::new()) }
}

/// Calls `tar::Builder::append_data` with a copy of the header block. Where
/// the builder takes the record, the sink holds it after the others.
#[verifier::external_body]
pub(crate) fn tar_append_data(sink: &mut TarSink, header: &[u8], path: &str, data: &[u8]) -> (taken: bool)
    requires
        header@.len() == HEADER_LEN,
    ensures
        taken == tar_accepts(
            TarRecord { target: TarTarget::NoLink, header: header@, path: path@, data: data@ },
        ),
        taken ==> sink_records(*final(sink)) == sink_records(*old(sink)).push(
            TarRecord { target: TarTarget::NoLink, header: header@, path: path@, data: data@ },
        ),
{
    let mut copy = tar::Header::from_byte_slice(header).clone();
    sink.inner.append_data(&mut copy, path, data).is_ok()
}

/// The link record under `path` that starts from `header` and points to
/// `target`.
pub open spec fn link_record(header: Seq<u8>, path: Seq<char>, target: TarTarget) -> TarRecord {
    TarRecord { target, header, path, data: Seq::empty() }
}

/// Calls `tar::Builder::append_link` with a copy of the header block and, as
/// the target, the link name that the block holds (`Header::link_name`). A
/// block without a readable link name is not taken. Where the builder takes
/// the record, the sink holds it after the others.
#[verifier::external_body]
pub(crate) fn tar_append_link_name(sink: &mut TarSink, header: &[u8], path: &str) -> (taken: bool)
    requires
        header@.len() == HEADER_LEN,
    ensures
        taken == tar_accepts(link_record(header@, path@, TarTarget::LinkName)),
        taken ==> sink_records(*final(sink)) == sink_records(*old(sink)).push(
            link_record(header@, path@, TarTarget::LinkName),
        ),
{
    let source = tar::Header::from_byte_slice(header);
    let Ok(Some(target)) = source.link_name() else {
        return false;
    };
    sink.inner.append_link(&mut source.clone(), path, target).is_ok()
}

/// Calls `tar::Builder::append_link` with a copy of the header block and, as
/// the target, the path that the block holds (`Header::path`). A block without
/// a readable path is not taken. Where the builder takes the record, the sink
/// holds it after the others.
#[verifier::external_body]
pub(crate) fn tar_append_link_path(sink: &mut TarSink, header: &[u8], path: &str) -> (taken: bool)
    requires
        header@.len() == HEADER_LEN,
    ensures
        taken == tar_accepts(link_record(header@, path@, TarTarget::OwnPath)),
        taken ==> sink_records(*final(sink)) == sink_records(*old(sink)).push(
            link_record(header@, path@, TarTarget::OwnPath),
        ),
{
    let source = tar::Header::from_byte_slice(header);
    let Ok(target) = source.path() else {
        return false;
    };
    sink.inner.append_link(&mut source.clone(), path, target).is_ok()
}

/// Calls `tar::Builder::into_inner`, which finishes the stream.
#[verifier::external_body]
pub(crate) fn tar_finish(sink: TarSink) -> (stream: Option<Vec<u8>>)
    ensures
        same_bytes(stream, tar_bytes(sink_records(sink))),
{
    sink.inner.into_inner().ok()
}

} // verus!
