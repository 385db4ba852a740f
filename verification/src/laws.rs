//! What holds of every run of a pipeline.
//!
//! The pipelines are stated entry by entry in [`crate::archive`]. The proofs
//! of this module draw from those statements what a caller relies on: that a
//! run with an empty filter list writes back what it read, that an entry which
//! no specifier matches is written, that an entry whose specifier is still in
//! the list is left out, that the list only ever loses specifiers, that the
//! skips never grow, and that a malformed tar entry costs a skip or ends the
//! run.

use crate::archive::{
    level_for, link_target, nested, pack_spec, permissions, stamp, tar_class, tar_item_step,
    tar_sealed, tar_spec, tar_step, tar_walk, zip_sealed, zip_spec, zip_step, zip_walk, Stage,
    TarClass,
};
use crate::codec::decoded;
use crate::error::Failure;
use crate::filter::{
    consumed, first_match, has_match, lemma_consumed_takes_one, lemma_first_match_from,
    lemma_scoping_divides, scoped, unscoped,
};
use crate::path::{ends_with, starts_with};
use crate::sniff::{inferred, mime_kind, sniffed, MimeKind};
use crate::tar_io::{resized_header, tar_steps, TarRecord, TarStep, TarTarget};
use crate::zip_io::{zip_items, ZipItem, ZipRecord};
use vstd::prelude::*;

verus! {

/// Whether every specifier of `inner` is a specifier of `outer`.
pub open spec fn within(inner: Seq<Seq<char>>, outer: Seq<Seq<char>>) -> bool {
    forall|s: Seq<char>| #[trigger] inner.contains(s) ==> outer.contains(s)
}

/// Whether no specifier of `filters` matches `path` under the suffix rule.
pub open spec fn unmatched(filters: Seq<Seq<char>>, path: Seq<char>) -> bool {
    forall|s: Seq<char>| #[trigger] filters.contains(s) ==> !ends_with(path, s)
}

/// Whether no specifier of `filters` lies under `path`.
pub open spec fn unclaimed(filters: Seq<Seq<char>>, path: Seq<char>) -> bool {
    forall|s: Seq<char>| #[trigger] filters.contains(s) ==> !starts_with(s, path)
}

/// A list that some specifier of which matches `path` is no list that leaves
/// `path` unmatched.
pub proof fn lemma_match_is_witnessed(filters: Seq<Seq<char>>, path: Seq<char>)
    ensures
        has_match(filters, path) ==> !unmatched(filters, path),
        !has_match(filters, path) ==> unmatched(filters, path),
{
    lemma_first_match_from(filters, path, 0);
    if has_match(filters, path) {
        assert(filters.contains(filters[first_match(filters, path)]));
    } else {
        assert forall|s: Seq<char>| #[trigger] filters.contains(s) implies !ends_with(path, s) by {
            let j = choose|j: int| 0 <= j < filters.len() && filters[j] == s;
            assert(!ends_with(path, filters[j]));
        }
    }
}

/// Setting apart the specifiers under a path leaves a list as it is of which
/// nothing lies under that path.
pub proof fn lemma_unclaimed_list_stays(filters: Seq<Seq<char>>, path: Seq<char>)
    requires
        unclaimed(filters, path),
    ensures
        unscoped(filters, path) == filters,
        scoped(filters, path) == Seq::<Seq<char>>::empty(),
    decreases filters.len(),
{
    reveal(Seq::filter);
    if filters.len() > 0 {
        let rest = filters.drop_last();
        assert forall|s: Seq<char>| #[trigger] rest.contains(s) implies !starts_with(s, path) by {
            let j = choose|j: int| 0 <= j < rest.len() && rest[j] == s;
            assert(filters[j] == s);
            assert(filters.contains(s));
        }
        lemma_unclaimed_list_stays(rest, path);
        assert(filters.contains(filters.last()));
        assert(rest.push(filters.last()) == filters);
    }
}

/// Looking into an entry's content adds no specifier to the list, which does
/// not grow, and takes
/// none from a list of which nothing lies under the entry's path; the content
/// of such an entry stays as it is.
pub proof fn lemma_nested_keeps_list(
    data: Seq<u8>,
    path: Seq<char>,
    filters: Seq<Seq<char>>,
    level: u32,
    skips: usize,
    depth: nat,
)
    ensures
        within(nested(data, path, filters, level, skips, depth).filters, filters),
        nested(data, path, filters, level, skips, depth).filters.len() <= filters.len(),
        unclaimed(filters, path) ==> nested(data, path, filters, level, skips, depth).outcome
            == Ok::<(Seq<u8>, bool), Failure>((data, false)) && nested(
            data,
            path,
            filters,
            level,
            skips,
            depth,
        ).skips == skips,
        unclaimed(filters, path) ==> nested(data, path, filters, level, skips, depth).filters
            == filters,
{
    lemma_scoping_divides(filters, path);
    if unclaimed(filters, path) {
        lemma_unclaimed_list_stays(filters, path);
    }
}

/// The record that stands for a zip entry which is written back as it was
/// read.
pub open spec fn zip_copy(item: ZipItem, level: u32) -> ZipRecord {
    let head = item.head->0;
    ZipRecord {
        dir: head.dir,
        name: head.name,
        method: head.method,
        modified: stamp(head.modified),
        mode: permissions(head.mode),
        level: level_for(head.stored, level),
        data: if head.dir {
            Seq::empty()
        } else {
            item.data->0
        },
    }
}

/// Whether a zip entry can be opened. Every such entry is written back, as a
/// directory or as a file.
pub open spec fn zip_kept(item: ZipItem) -> bool {
    item.head is Some
}

/// What one zip entry does to a pipeline. The list gains no specifier and
/// does not grow, and the records written before stay. An entry that a specifier matches costs
/// the list that specifier and writes nothing. An entry that can be opened and that no
/// specifier matches is written under its name, unless the run fails there;
/// where no specifier lies under its path either, it is written as it was
/// read, the list stays as it is, and so do the skips.
pub proof fn lemma_zip_step(
    item: ZipItem,
    filters: Seq<Seq<char>>,
    skips: usize,
    records: Seq<ZipRecord>,
    level: u32,
    depth: nat,
)
    ensures
        ({
            let stage = zip_step(item, filters, skips, records, level, depth);
            &&& within(stage.filters, filters)
            &&& stage.filters.len() <= filters.len()
            &&& records.is_prefix_of(stage.records)
            &&& item.head is Some && has_match(filters, item.head->0.name) ==> stage == (Stage {
                filters: consumed(filters, item.head->0.name),
                skips,
                records,
                failure: None,
            })
            &&& zip_kept(item) && unmatched(filters, item.head->0.name) && stage.failure is None
                ==> stage.records.len() == records.len() + 1 && stage.records.last().name
                == item.head->0.name && stage.records.last().dir == item.head->0.dir
            &&& zip_kept(item) && unmatched(filters, item.head->0.name) && unclaimed(
                filters,
                item.head->0.name,
            ) && stage.failure is None ==> stage.records == records.push(zip_copy(item, level))
                && stage.filters == filters && stage.skips == skips
        }),
{
    if item.head is Some {
        let name = item.head->0.name;
        let left = consumed(filters, name);
        lemma_consumed_takes_one(filters, name);
        lemma_match_is_witnessed(filters, name);
        if item.data is Some {
            lemma_nested_keeps_list(item.data->0, name, left, level, skips, depth);
        }
    }
}

/// What the rest of a zip run does to a pipeline: the list gains no
/// specifier and does not grow, and the records written before stay.
pub proof fn lemma_zip_walk_extends(
    items: Seq<ZipItem>,
    index: int,
    filters: Seq<Seq<char>>,
    skips: usize,
    records: Seq<ZipRecord>,
    level: u32,
    depth: nat,
)
    ensures
        within(zip_walk(items, index, filters, skips, records, level, depth).filters, filters),
        zip_walk(items, index, filters, skips, records, level, depth).filters.len()
            <= filters.len(),
        records.is_prefix_of(zip_walk(items, index, filters, skips, records, level, depth).records),
    decreases items.len() - index,
{
    if 0 <= index < items.len() {
        let stage = zip_step(items[index], filters, skips, records, level, depth);
        lemma_zip_step(items[index], filters, skips, records, level, depth);
        if stage.failure is None {
            lemma_zip_walk_extends(
                items,
                index + 1,
                stage.filters,
                stage.skips,
                stage.records,
                level,
                depth,
            );
        }
    }
}

/// A zip run can be cut at any entry: the run from `index` on is the run up to
/// the entry at `cut`, followed, unless that failed, by the run from `cut` on.
pub proof fn lemma_zip_walk_splits(
    items: Seq<ZipItem>,
    index: int,
    cut: int,
    filters: Seq<Seq<char>>,
    skips: usize,
    records: Seq<ZipRecord>,
    level: u32,
    depth: nat,
)
    requires
        0 <= index <= cut <= items.len(),
    ensures
        ({
            let before = zip_walk(items.take(cut), index, filters, skips, records, level, depth);
            zip_walk(items, index, filters, skips, records, level, depth) == if before.failure
                is Some {
                before
            } else {
                zip_walk(items, cut, before.filters, before.skips, before.records, level, depth)
            }
        }),
    decreases cut - index,
{
    if index < cut {
        assert(items.take(cut)[index] == items[index]);
        let stage = zip_step(items[index], filters, skips, records, level, depth);
        if stage.failure is None {
            lemma_zip_walk_splits(
                items,
                index + 1,
                cut,
                stage.filters,
                stage.skips,
                stage.records,
                level,
                depth,
            );
        }
    }
}

/// With an empty filter list a zip run writes back what it reads: where every
/// entry can be opened and the run does not fail, the records
/// written are the entries, one for one and in their order, and the list is
/// still empty and the skips are untouched.
pub proof fn lemma_zip_empty_list_copies(
    items: Seq<ZipItem>,
    index: int,
    skips: usize,
    records: Seq<ZipRecord>,
    level: u32,
    depth: nat,
)
    requires
        0 <= index <= items.len(),
        forall|i: int| index <= i < items.len() ==> zip_kept(#[trigger] items[i]),
    ensures
        ({
            let end = zip_walk(items, index, Seq::empty(), skips, records, level, depth);
            end.failure is None ==> end.filters == Seq::<Seq<char>>::empty() && end.skips
                == skips && end.records == records + items.subrange(
                index,
                items.len() as int,
            ).map_values(|item: ZipItem| zip_copy(item, level))
        }),
    decreases items.len() - index,
{
    let nothing = Seq::<Seq<char>>::empty();
    let copies = items.subrange(index, items.len() as int).map_values(
        |item: ZipItem| zip_copy(item, level),
    );
    if index < items.len() {
        let item = items[index];
        let stage = zip_step(item, nothing, skips, records, level, depth);
        lemma_zip_step(item, nothing, skips, records, level, depth);
        assert(zip_kept(item));
        if stage.failure is None {
            lemma_zip_empty_list_copies(items, index + 1, skips, stage.records, level, depth);
            let later = items.subrange(index + 1, items.len() as int).map_values(
                |item: ZipItem| zip_copy(item, level),
            );
            assert(copies == seq![zip_copy(item, level)] + later);
            assert(records.push(zip_copy(item, level)) + later == records + copies);
        }
    } else {
        assert(records + copies == records);
    }
}

/// An entry of a zip container that no specifier of the list matches is
/// written: a run that does not fail holds a record under its name.
/// Where no specifier lies under its path either, the record holds the entry
/// as it was read.
pub proof fn lemma_zip_unmatched_entry_is_written(
    items: Seq<ZipItem>,
    index: int,
    entry: int,
    filters: Seq<Seq<char>>,
    skips: usize,
    records: Seq<ZipRecord>,
    level: u32,
    depth: nat,
)
    requires
        0 <= index <= entry < items.len(),
        zip_kept(items[entry]),
        unmatched(filters, items[entry].head->0.name),
        zip_walk(items, index, filters, skips, records, level, depth).failure is None,
    ensures
        ({
            let end = zip_walk(items, index, filters, skips, records, level, depth);
            exists|j: int|
                records.len() <= j < end.records.len() && (#[trigger] end.records[j]).name
                    == items[entry].head->0.name && end.records[j].dir == items[entry].head->0.dir
                    && (unclaimed(filters, items[entry].head->0.name) ==> end.records[j]
                    == zip_copy(items[entry], level))
        }),
    decreases entry - index,
{
    let name = items[entry].head->0.name;
    let stage = zip_step(items[index], filters, skips, records, level, depth);
    let end = zip_walk(items, index, filters, skips, records, level, depth);
    lemma_zip_step(items[index], filters, skips, records, level, depth);
    if index == entry {
        lemma_zip_walk_extends(
            items,
            index + 1,
            stage.filters,
            stage.skips,
            stage.records,
            level,
            depth,
        );
        let j = records.len() as int;
        assert(end.records[j] == stage.records[j]);
    } else {
        assert forall|s: Seq<char>| #[trigger] stage.filters.contains(s) implies !ends_with(
            name,
            s,
        ) by {
            assert(filters.contains(s));
        }
        if unclaimed(filters, name) {
            assert forall|s: Seq<char>| #[trigger] stage.filters.contains(s) implies !starts_with(
                s,
                name,
            ) by {
                assert(filters.contains(s));
            }
        }
        lemma_zip_unmatched_entry_is_written(
            items,
            index + 1,
            entry,
            stage.filters,
            stage.skips,
            stage.records,
            level,
            depth,
        );
    }
}

/// Whether a zip entry leaves a specifier in the list: the specifier does not
/// match it, and the entry is no nested archive under whose path the
/// specifier lies.
pub open spec fn zip_spares(item: ZipItem, specifier: Seq<char>) -> bool {
    item.head is Some ==> !ends_with(item.head->0.name, specifier) && (!starts_with(
        specifier,
        item.head->0.name,
    ) || item.head->0.dir || (item.data is Some && sniffed(item.data->0)
        == MimeKind::Unsupported))
}

/// An entry of a zip container that a specifier of the list matches is left
/// out, as long as the specifier is still in the list: where every earlier
/// entry leaves the specifier in the list, and the run has not failed before,
/// the entry takes a specifier out of the list and nothing is written for it.
/// With a list of that one specifier the list is empty afterwards.
pub proof fn lemma_zip_matched_entry_is_dropped(
    items: Seq<ZipItem>,
    index: int,
    entry: int,
    specifier: Seq<char>,
    filters: Seq<Seq<char>>,
    skips: usize,
    records: Seq<ZipRecord>,
    level: u32,
    depth: nat,
)
    requires
        0 <= index <= entry < items.len(),
        filters.contains(specifier),
        items[entry].head is Some,
        ends_with(items[entry].head->0.name, specifier),
        forall|i: int| index <= i < entry ==> zip_spares(#[trigger] items[i], specifier),
        zip_walk(items.take(entry), index, filters, skips, records, level, depth).failure is None,
    ensures
        ({
            let before = zip_walk(items.take(entry), index, filters, skips, records, level, depth);
            &&& before.filters.contains(specifier)
            &&& filters.len() == 1 ==> consumed(before.filters, items[entry].head->0.name).len() == 0
            &&& zip_step(
                items[entry],
                before.filters,
                before.skips,
                before.records,
                level,
                depth,
            ) == (Stage {
                filters: consumed(before.filters, items[entry].head->0.name),
                skips: before.skips,
                records: before.records,
                failure: None,
            })
        }),
    decreases entry - index,
{
    let name = items[entry].head->0.name;
    lemma_zip_walk_extends(items.take(entry), index, filters, skips, records, level, depth);
    if index == entry {
        lemma_match_is_witnessed(filters, name);
        lemma_zip_step(items[entry], filters, skips, records, level, depth);
        lemma_consumed_takes_one(filters, name);
    } else {
        let item = items[index];
        assert(items.take(entry)[index] == item);
        let stage = zip_step(item, filters, skips, records, level, depth);
        assert(item.head is Some);
        let left = consumed(filters, item.head->0.name);
        assert(zip_spares(item, specifier));
        lemma_consumed_takes_one(filters, item.head->0.name);
        assert(left.contains(specifier));
        lemma_scoping_divides(left, item.head->0.name);
        assert(stage.filters.contains(specifier));
        assert forall|i: int| index + 1 <= i < entry implies zip_spares(
            #[trigger] items[i],
            specifier,
        ) by {}
        lemma_zip_matched_entry_is_dropped(
            items,
            index + 1,
            entry,
            specifier,
            stage.filters,
            stage.skips,
            stage.records,
            level,
            depth,
        );
    }
}

/// Whether a step of a tar stream is an entry of a kind that is written back:
/// a directory, an entry with content, or a link.
pub open spec fn tar_kept(step: TarStep) -> bool {
    step is Entry && step->Entry_0.path is Some && tar_class(step->Entry_0.kind)
        != TarClass::Other
}

/// The path of the entry at a step.
pub open spec fn tar_path(step: TarStep) -> Seq<char> {
    step->Entry_0.path->0
}

/// The record that stands for a tar entry which is written back as it was
/// read: a link with its header, an entry with content with its header and its
/// content, a directory with its header set to no content.
pub open spec fn tar_copy(step: TarStep) -> TarRecord {
    let item = step->Entry_0;
    match tar_class(item.kind) {
        TarClass::Link => TarRecord {
            target: link_target(item.link_name->0),
            header: item.header,
            path: item.path->0,
            data: Seq::empty(),
        },
        TarClass::Directory => TarRecord {
            target: TarTarget::NoLink,
            header: resized_header(item.header, 0),
            path: item.path->0,
            data: Seq::empty(),
        },
        _ => TarRecord {
            target: TarTarget::NoLink,
            header: item.header,
            path: item.path->0,
            data: item.data->0,
        },
    }
}

/// What one step of a tar stream does to a pipeline. The list gains no
/// specifier and does not grow, and the records written before stay. A
/// malformed step costs a skip and nothing else, and fails the run where no
/// skip is left. An entry that a specifier matches costs the list that
/// specifier and writes nothing. A link or a directory that no specifier
/// matches is written as it was read, a link with its target. An entry of a
/// kind that is written back and that no specifier matches is written under
/// its path, unless the run fails there; where no specifier lies under its
/// path either, it is written as it was read, the list stays as it is, and so
/// do the skips.
pub proof fn lemma_tar_step(
    step: TarStep,
    filters: Seq<Seq<char>>,
    skips: usize,
    records: Seq<TarRecord>,
    level: u32,
    depth: nat,
)
    ensures
        ({
            let stage = tar_step(step, filters, skips, records, level, depth);
            &&& within(stage.filters, filters)
            &&& stage.filters.len() <= filters.len()
            &&& records.is_prefix_of(stage.records)
            &&& step is Entry && step->Entry_0.path is Some && has_match(filters, tar_path(step))
                ==> stage == (Stage {
                filters: consumed(filters, tar_path(step)),
                skips,
                records,
                failure: None,
            })
            &&& tar_kept(step) && unmatched(filters, tar_path(step)) && stage.failure is None
                ==> stage.records.len() == records.len() + 1 && stage.records.last().path
                == tar_path(step) && (stage.records.last().target is NoLink) == (tar_class(
                step->Entry_0.kind,
            ) != TarClass::Link)
            &&& tar_kept(step) && unmatched(filters, tar_path(step)) && (unclaimed(
                filters,
                tar_path(step),
            ) || tar_class(step->Entry_0.kind) != TarClass::Content) && stage.failure is None
                ==> stage.records == records.push(tar_copy(step)) && stage.filters == filters
                && stage.skips == skips
            &&& step is Malformed ==> stage == if skips > 0 {
                Stage { filters, skips: (skips - 1) as usize, records, failure: None }
            } else {
                Stage { filters, skips, records, failure: Some(Failure::MalformedEntry) }
            }
        }),
{
    if step is Entry {
        let item = step->Entry_0;
        assert(tar_step(step, filters, skips, records, level, depth) == tar_item_step(
            item,
            filters,
            skips,
            records,
            level,
            depth,
        ));
        if item.path is Some {
            let path = item.path->0;
            let left = consumed(filters, path);
            lemma_consumed_takes_one(filters, path);
            lemma_match_is_witnessed(filters, path);
            if item.data is Some {
                lemma_nested_keeps_list(item.data->0, path, left, level, skips, depth);
            }
        }
    }
}

/// What the rest of a tar run does to a pipeline: the list gains no
/// specifier and does not grow, and the records written before stay.
pub proof fn lemma_tar_walk_extends(
    steps: Seq<TarStep>,
    filters: Seq<Seq<char>>,
    skips: usize,
    records: Seq<TarRecord>,
    level: u32,
    depth: nat,
)
    ensures
        within(tar_walk(steps, filters, skips, records, level, depth).filters, filters),
        tar_walk(steps, filters, skips, records, level, depth).filters.len() <= filters.len(),
        records.is_prefix_of(tar_walk(steps, filters, skips, records, level, depth).records),
    decreases steps.len(),
{
    if steps.len() > 0 {
        let stage = tar_step(steps[0], filters, skips, records, level, depth);
        lemma_tar_step(steps[0], filters, skips, records, level, depth);
        if stage.failure is None {
            lemma_tar_walk_extends(
                steps.drop_first(),
                stage.filters,
                stage.skips,
                stage.records,
                level,
                depth,
            );
        }
    }
}

/// A tar run can be cut at any step: the run is the run over the steps before
/// `cut`, followed, unless that failed, by the run over the steps from `cut`
/// on.
pub proof fn lemma_tar_walk_splits(
    steps: Seq<TarStep>,
    cut: int,
    filters: Seq<Seq<char>>,
    skips: usize,
    records: Seq<TarRecord>,
    level: u32,
    depth: nat,
)
    requires
        0 <= cut <= steps.len(),
    ensures
        ({
            let before = tar_walk(steps.take(cut), filters, skips, records, level, depth);
            tar_walk(steps, filters, skips, records, level, depth) == if before.failure is Some {
                before
            } else {
                tar_walk(
                    steps.skip(cut),
                    before.filters,
                    before.skips,
                    before.records,
                    level,
                    depth,
                )
            }
        }),
    decreases cut,
{
    if cut > 0 {
        assert(steps.take(cut)[0] == steps[0]);
        assert(steps.take(cut).drop_first() == steps.drop_first().take(cut - 1));
        assert(steps.drop_first().skip(cut - 1) == steps.skip(cut));
        let stage = tar_step(steps[0], filters, skips, records, level, depth);
        if stage.failure is None {
            lemma_tar_walk_splits(
                steps.drop_first(),
                cut - 1,
                stage.filters,
                stage.skips,
                stage.records,
                level,
                depth,
            );
        }
    } else {
        assert(steps.skip(0) == steps);
    }
}

/// With an empty filter list a tar run writes back what it reads: where every
/// step is an entry of a kind that is written back and the run does not fail,
/// the records written are the entries, one for one and in their order, and
/// the list is still empty and the skips are untouched.
pub proof fn lemma_tar_empty_list_copies(
    steps: Seq<TarStep>,
    skips: usize,
    records: Seq<TarRecord>,
    level: u32,
    depth: nat,
)
    requires
        forall|i: int| 0 <= i < steps.len() ==> tar_kept(#[trigger] steps[i]),
    ensures
        ({
            let end = tar_walk(steps, Seq::empty(), skips, records, level, depth);
            end.failure is None ==> end.filters == Seq::<Seq<char>>::empty() && end.skips
                == skips && end.records == records + steps.map_values(
                |step: TarStep| tar_copy(step),
            )
        }),
    decreases steps.len(),
{
    let nothing = Seq::<Seq<char>>::empty();
    let copies = steps.map_values(|step: TarStep| tar_copy(step));
    if steps.len() > 0 {
        let step = steps[0];
        let rest = steps.drop_first();
        let stage = tar_step(step, nothing, skips, records, level, depth);
        lemma_tar_step(step, nothing, skips, records, level, depth);
        assert(tar_kept(step));
        assert forall|i: int| 0 <= i < rest.len() implies tar_kept(#[trigger] rest[i]) by {
            assert(rest[i] == steps[i + 1]);
        }
        if stage.failure is None {
            lemma_tar_empty_list_copies(rest, skips, stage.records, level, depth);
            let later = rest.map_values(|step: TarStep| tar_copy(step));
            assert(copies == seq![tar_copy(step)] + later);
            assert(records.push(tar_copy(step)) + later == records + copies);
        }
    } else {
        assert(records + copies == records);
    }
}

/// An entry of a tar stream that is of a kind that is written back, and that
/// no specifier of the list matches, is written: a run that does not fail
/// holds a record under its path. Where no specifier lies under its path
/// either, the record holds the entry as it was read.
pub proof fn lemma_tar_unmatched_entry_is_written(
    steps: Seq<TarStep>,
    entry: int,
    filters: Seq<Seq<char>>,
    skips: usize,
    records: Seq<TarRecord>,
    level: u32,
    depth: nat,
)
    requires
        0 <= entry < steps.len(),
        tar_kept(steps[entry]),
        unmatched(filters, tar_path(steps[entry])),
        tar_walk(steps, filters, skips, records, level, depth).failure is None,
    ensures
        ({
            let end = tar_walk(steps, filters, skips, records, level, depth);
            exists|j: int|
                records.len() <= j < end.records.len() && (#[trigger] end.records[j]).path
                    == tar_path(steps[entry]) && (unclaimed(filters, tar_path(steps[entry]))
                    ==> end.records[j] == tar_copy(steps[entry]))
        }),
    decreases entry,
{
    let path = tar_path(steps[entry]);
    let stage = tar_step(steps[0], filters, skips, records, level, depth);
    let end = tar_walk(steps, filters, skips, records, level, depth);
    lemma_tar_step(steps[0], filters, skips, records, level, depth);
    if entry == 0 {
        lemma_tar_walk_extends(
            steps.drop_first(),
            stage.filters,
            stage.skips,
            stage.records,
            level,
            depth,
        );
        let j = records.len() as int;
        assert(end.records[j] == stage.records[j]);
    } else {
        assert(steps.drop_first()[entry - 1] == steps[entry]);
        assert forall|s: Seq<char>| #[trigger] stage.filters.contains(s) implies !ends_with(
            path,
            s,
        ) by {
            assert(filters.contains(s));
        }
        if unclaimed(filters, path) {
            assert forall|s: Seq<char>| #[trigger] stage.filters.contains(s) implies !starts_with(
                s,
                path,
            ) by {
                assert(filters.contains(s));
            }
        }
        lemma_tar_unmatched_entry_is_written(
            steps.drop_first(),
            entry - 1,
            stage.filters,
            stage.skips,
            stage.records,
            level,
            depth,
        );
    }
}

/// Whether a step of a tar stream leaves a specifier in the list: the
/// specifier does not match the entry, and the entry is no nested archive
/// under whose path the specifier lies.
pub open spec fn tar_spares(step: TarStep, specifier: Seq<char>) -> bool {
    step is Entry && step->Entry_0.path is Some ==> !ends_with(tar_path(step), specifier) && (
    !starts_with(specifier, tar_path(step)) || tar_class(step->Entry_0.kind) != TarClass::Content
        || (step->Entry_0.data is Some && sniffed(step->Entry_0.data->0)
        == MimeKind::Unsupported))
}

/// An entry of a tar stream that a specifier of the list matches is left out,
/// as long as the specifier is still in the list: where every earlier step
/// leaves the specifier in the list, and the run has not failed before, the
/// entry takes a specifier out of the list and nothing is written for it. With
/// a list of that one specifier the list is empty afterwards.
pub proof fn lemma_tar_matched_entry_is_dropped(
    steps: Seq<TarStep>,
    entry: int,
    specifier: Seq<char>,
    filters: Seq<Seq<char>>,
    skips: usize,
    records: Seq<TarRecord>,
    level: u32,
    depth: nat,
)
    requires
        0 <= entry < steps.len(),
        filters.contains(specifier),
        steps[entry] is Entry,
        steps[entry]->Entry_0.path is Some,
        ends_with(tar_path(steps[entry]), specifier),
        forall|i: int| 0 <= i < entry ==> tar_spares(#[trigger] steps[i], specifier),
        tar_walk(steps.take(entry), filters, skips, records, level, depth).failure is None,
    ensures
        ({
            let before = tar_walk(steps.take(entry), filters, skips, records, level, depth);
            &&& before.filters.contains(specifier)
            &&& filters.len() == 1 ==> consumed(before.filters, tar_path(steps[entry])).len() == 0
            &&& tar_step(steps[entry], before.filters, before.skips, before.records, level, depth)
                == (Stage {
                filters: consumed(before.filters, tar_path(steps[entry])),
                skips: before.skips,
                records: before.records,
                failure: None,
            })
        }),
    decreases entry,
{
    let path = tar_path(steps[entry]);
    lemma_tar_walk_extends(steps.take(entry), filters, skips, records, level, depth);
    if entry == 0 {
        lemma_match_is_witnessed(filters, path);
        lemma_tar_step(steps[entry], filters, skips, records, level, depth);
        lemma_consumed_takes_one(filters, path);
    } else {
        let step = steps[0];
        let rest = steps.drop_first();
        assert(steps.take(entry)[0] == step);
        assert(steps.take(entry).drop_first() == rest.take(entry - 1));
        assert(rest[entry - 1] == steps[entry]);
        let stage = tar_step(step, filters, skips, records, level, depth);
        if step is Entry {
            let item = step->Entry_0;
            assert(stage == tar_item_step(item, filters, skips, records, level, depth));
            assert(item.path is Some);
            assert(tar_spares(step, specifier));
            let left = consumed(filters, item.path->0);
            lemma_consumed_takes_one(filters, item.path->0);
            assert(left.contains(specifier));
            lemma_scoping_divides(left, item.path->0);
        }
        assert(stage.filters.contains(specifier));
        assert forall|i: int| 0 <= i < entry - 1 implies tar_spares(
            #[trigger] rest[i],
            specifier,
        ) by {
            assert(rest[i] == steps[i + 1]);
        }
        lemma_tar_matched_entry_is_dropped(
            rest,
            entry - 1,
            specifier,
            stage.filters,
            stage.skips,
            stage.records,
            level,
            depth,
        );
    }
}

/// A zip container that is rewritten with an empty filter list comes back with
/// its entries: where every entry can be opened and the run does not fail, the container handed back is the writer's container for the
/// entries as they were read.
pub proof fn lemma_zip_identity(input: Seq<u8>, skips: usize, level: u32, depth: nat)
    requires
        zip_items(input) is Some,
        forall|i: int|
            0 <= i < zip_items(input)->0.len() ==> zip_kept(#[trigger] zip_items(input)->0[i]),
    ensures
        ({
            let run = zip_spec(input, Seq::empty(), level, skips, depth);
            run.outcome is Ok ==> run.filters == Seq::<Seq<char>>::empty() && run.skips == skips
                && run.outcome == zip_sealed(
                zip_items(input)->0.map_values(|item: ZipItem| zip_copy(item, level)),
            )
        }),
{
    let items = zip_items(input)->0;
    lemma_zip_empty_list_copies(items, 0, skips, Seq::empty(), level, depth);
    assert(items.subrange(0, items.len() as int) == items);
    let copies = items.map_values(|item: ZipItem| zip_copy(item, level));
    assert(Seq::<ZipRecord>::empty() + copies == copies);
}

/// A tar stream that is rewritten with an empty filter list comes back with
/// its entries: where every step is an entry of a kind that is written back
/// and the run does not fail, the stream handed back is the builder's stream
/// for the entries as they were read, wrapped as the input was.
pub proof fn lemma_tar_identity(
    input: Seq<u8>,
    skips: usize,
    kind: MimeKind,
    level: u32,
    depth: nat,
)
    requires
        decoded(kind, input) is Ok,
        tar_steps(decoded(kind, input)->Ok_0) is Some,
        forall|i: int|
            0 <= i < tar_steps(decoded(kind, input)->Ok_0)->0.len() ==> tar_kept(
                #[trigger] tar_steps(decoded(kind, input)->Ok_0)->0[i],
            ),
    ensures
        ({
            let run = tar_spec(input, Seq::empty(), level, skips, kind, depth);
            run.outcome is Ok ==> run.filters == Seq::<Seq<char>>::empty() && run.skips == skips
                && run.outcome == tar_sealed(
                tar_steps(decoded(kind, input)->Ok_0)->0.map_values(
                    |step: TarStep| tar_copy(step),
                ),
                kind,
                level,
            )
        }),
{
    let steps = tar_steps(decoded(kind, input)->Ok_0)->0;
    lemma_tar_empty_list_copies(steps, skips, Seq::empty(), level, depth);
    let copies = steps.map_values(|step: TarStep| tar_copy(step));
    assert(Seq::<TarRecord>::empty() + copies == copies);
}

/// The skips never grow: a run ends with no more skips than it began with.
pub proof fn lemma_skips_pack(
    input: Seq<u8>,
    filters: Seq<Seq<char>>,
    level: u32,
    skips: usize,
    depth: nat,
)
    ensures
        pack_spec(input, filters, level, skips, depth).skips <= skips,
    decreases depth, 5nat, 0nat,
{
    if inferred(input) is Ok {
        let kind = mime_kind(inferred(input)->Ok_0);
        if kind == MimeKind::Zip {
            if zip_items(input) is Some {
                lemma_skips_zip_walk(
                    zip_items(input)->0,
                    0,
                    filters,
                    skips,
                    Seq::empty(),
                    level,
                    depth,
                );
            }
        } else if kind != MimeKind::Unsupported {
            if decoded(kind, input) is Ok && tar_steps(decoded(kind, input)->Ok_0) is Some {
                lemma_skips_tar_walk(
                    tar_steps(decoded(kind, input)->Ok_0)->0,
                    filters,
                    skips,
                    Seq::empty(),
                    level,
                    depth,
                );
            }
        }
    }
}

/// The skips never grow while an entry's content is looked into.
pub proof fn lemma_skips_nested(
    data: Seq<u8>,
    path: Seq<char>,
    filters: Seq<Seq<char>>,
    level: u32,
    skips: usize,
    depth: nat,
)
    ensures
        nested(data, path, filters, level, skips, depth).skips <= skips,
    decreases depth, 0nat, 0nat,
{
    if sniffed(data) != MimeKind::Unsupported && scoped(filters, path).len() > 0 && depth > 0 {
        lemma_skips_pack(data, scoped(filters, path), level, skips, (depth - 1) as nat);
    }
}

/// The skips never grow over a step of a tar stream.
pub proof fn lemma_skips_tar_step(
    step: TarStep,
    filters: Seq<Seq<char>>,
    skips: usize,
    records: Seq<TarRecord>,
    level: u32,
    depth: nat,
)
    ensures
        tar_step(step, filters, skips, records, level, depth).skips <= skips,
    decreases depth, 2nat, 0nat,
{
    if step is Entry {
        let item = step->Entry_0;
        assert(tar_step(step, filters, skips, records, level, depth) == tar_item_step(
            item,
            filters,
            skips,
            records,
            level,
            depth,
        ));
        if item.path is Some && item.data is Some {
            lemma_skips_nested(
                item.data->0,
                item.path->0,
                consumed(filters, item.path->0),
                level,
                skips,
                depth,
            );
        }
    }
}

/// The skips never grow over the rest of a tar run.
pub proof fn lemma_skips_tar_walk(
    steps: Seq<TarStep>,
    filters: Seq<Seq<char>>,
    skips: usize,
    records: Seq<TarRecord>,
    level: u32,
    depth: nat,
)
    ensures
        tar_walk(steps, filters, skips, records, level, depth).skips <= skips,
    decreases depth, 3nat, steps.len(),
{
    if steps.len() > 0 {
        let stage = tar_step(steps[0], filters, skips, records, level, depth);
        lemma_skips_tar_step(steps[0], filters, skips, records, level, depth);
        if stage.failure is None {
            lemma_skips_tar_walk(
                steps.drop_first(),
                stage.filters,
                stage.skips,
                stage.records,
                level,
                depth,
            );
        }
    }
}

/// The skips never grow over an entry of a zip container.
pub proof fn lemma_skips_zip_step(
    item: ZipItem,
    filters: Seq<Seq<char>>,
    skips: usize,
    records: Seq<ZipRecord>,
    level: u32,
    depth: nat,
)
    ensures
        zip_step(item, filters, skips, records, level, depth).skips <= skips,
    decreases depth, 1nat, 0nat,
{
    if item.head is Some && item.data is Some {
        lemma_skips_nested(
            item.data->0,
            item.head->0.name,
            consumed(filters, item.head->0.name),
            level,
            skips,
            depth,
        );
    }
}

/// The skips never grow over the rest of a zip run.
pub proof fn lemma_skips_zip_walk(
    items: Seq<ZipItem>,
    index: int,
    filters: Seq<Seq<char>>,
    skips: usize,
    records: Seq<ZipRecord>,
    level: u32,
    depth: nat,
)
    ensures
        zip_walk(items, index, filters, skips, records, level, depth).skips <= skips,
    decreases depth, 3nat, items.len() - index,
{
    if 0 <= index < items.len() {
        let stage = zip_step(items[index], filters, skips, records, level, depth);
        lemma_skips_zip_step(items[index], filters, skips, records, level, depth);
        if stage.failure is None {
            lemma_skips_zip_walk(
                items,
                index + 1,
                stage.filters,
                stage.skips,
                stage.records,
                level,
                depth,
            );
        }
    }
}

/// A malformed entry ends a run that may skip none: a tar run that begins
/// without skips and meets a malformed step fails, and it fails with
/// `MalformedEntry` unless it has failed before that step.
pub proof fn lemma_tar_malformed_ends_run(
    steps: Seq<TarStep>,
    at: int,
    filters: Seq<Seq<char>>,
    records: Seq<TarRecord>,
    level: u32,
    depth: nat,
)
    requires
        0 <= at < steps.len(),
        steps[at] is Malformed,
    ensures
        ({
            let end = tar_walk(steps, filters, 0, records, level, depth);
            let before = tar_walk(steps.take(at), filters, 0, records, level, depth);
            &&& end.failure is Some
            &&& before.failure is None ==> end.failure == Some(Failure::MalformedEntry)
                && end.records == before.records
        }),
{
    let before = tar_walk(steps.take(at), filters, 0, records, level, depth);
    lemma_tar_walk_splits(steps, at, filters, 0, records, level, depth);
    lemma_skips_tar_walk(steps.take(at), filters, 0, records, level, depth);
    if before.failure is None {
        assert(steps.skip(at)[0] == steps[at]);
        lemma_tar_step(steps[at], before.filters, before.skips, before.records, level, depth);
    }
}

/// A tar stream with a malformed entry that is rewritten without skips hands
/// back no bytes.
pub proof fn lemma_tar_rejects_malformed(
    input: Seq<u8>,
    at: int,
    filters: Seq<Seq<char>>,
    kind: MimeKind,
    level: u32,
    depth: nat,
)
    requires
        decoded(kind, input) is Ok,
        tar_steps(decoded(kind, input)->Ok_0) is Some,
        0 <= at < tar_steps(decoded(kind, input)->Ok_0)->0.len(),
        tar_steps(decoded(kind, input)->Ok_0)->0[at] is Malformed,
    ensures
        tar_spec(input, filters, level, 0, kind, depth).outcome is Err,
{
    lemma_tar_malformed_ends_run(
        tar_steps(decoded(kind, input)->Ok_0)->0,
        at,
        filters,
        Seq::empty(),
        level,
        depth,
    );
}

/// The records that stand for the entries among `steps`, written back as they
/// were read, in their order.
pub open spec fn tar_copies(steps: Seq<TarStep>) -> Seq<TarRecord>
    decreases steps.len(),
{
    if steps.len() == 0 {
        Seq::empty()
    } else if steps[0] is Entry {
        seq![tar_copy(steps[0])] + tar_copies(steps.drop_first())
    } else {
        tar_copies(steps.drop_first())
    }
}

/// The number of malformed steps among `steps`.
pub open spec fn malformed_among(steps: Seq<TarStep>) -> nat
    decreases steps.len(),
{
    if steps.len() == 0 {
        0
    } else if steps[0] is Malformed {
        1 + malformed_among(steps.drop_first())
    } else {
        malformed_among(steps.drop_first())
    }
}

/// With an empty filter list a tar run that skips malformed entries writes
/// back all the others: where every entry is of a kind that is written back
/// and the run does not fail, the records written are the entries, one for one
/// and in their order, each malformed step has cost one skip, and the list is
/// still empty.
pub proof fn lemma_tar_skips_only_malformed(
    steps: Seq<TarStep>,
    skips: usize,
    records: Seq<TarRecord>,
    level: u32,
    depth: nat,
)
    requires
        forall|i: int| 0 <= i < steps.len() ==> (#[trigger] steps[i]) is Malformed || tar_kept(
            steps[i],
        ),
    ensures
        ({
            let end = tar_walk(steps, Seq::empty(), skips, records, level, depth);
            end.failure is None ==> end.filters == Seq::<Seq<char>>::empty() && end.skips
                + malformed_among(steps) == skips && end.records == records + tar_copies(steps)
        }),
    decreases steps.len(),
{
    let nothing = Seq::<Seq<char>>::empty();
    if steps.len() > 0 {
        let step = steps[0];
        let rest = steps.drop_first();
        let stage = tar_step(step, nothing, skips, records, level, depth);
        lemma_tar_step(step, nothing, skips, records, level, depth);
        assert(step is Malformed || tar_kept(step));
        assert forall|i: int| 0 <= i < rest.len() implies (#[trigger] rest[i]) is Malformed
            || tar_kept(rest[i]) by {
            assert(rest[i] == steps[i + 1]);
        }
        if stage.failure is None {
            lemma_tar_skips_only_malformed(rest, stage.skips, stage.records, level, depth);
            if step is Entry {
                assert(records.push(tar_copy(step)) + tar_copies(rest) == records + tar_copies(
                    steps,
                ));
            }
        }
    } else {
        assert(records + tar_copies(steps) == records);
    }
}

} // verus!
