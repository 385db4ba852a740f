//! The filter list: the path specifiers that are still to be removed.
//!
//! The list is an ordered sequence of specifiers. Two operations change it
//! while a container is rewritten.
//!
//! * [`consume`] asks whether an entry is to be dropped. It goes by the suffix
//!   rule: a specifier matches an entry when the specifier's components are the
//!   last components of the entry's path. The first specifier that matches is
//!   taken out of the list, so that it cannot match again.
//! * [`retain_inner_vec`] sets apart the specifiers that belong inside a nested
//!   archive. It goes by the prefix rule: a specifier belongs inside when its
//!   components begin with the components of the nested archive's path.

use crate::path::{ends_with, path_ends_with, path_starts_with, starts_with};
use vstd::prelude::*;

verus! {

/// What a filter list holds: the text of each specifier, in order.
pub open spec fn specifiers(filters: Seq<String>) -> Seq<Seq<char>> {
    filters.map_values(|specifier: String| specifier@)
}

/// The position of the first specifier at or after `from` that matches `path`
/// under the suffix rule; the length of the list when there is none.
pub open spec fn first_match_from(filters: Seq<Seq<char>>, path: Seq<char>, from: int) -> int
    decreases filters.len() - from,
{
    if from >= filters.len() {
        filters.len() as int
    } else if ends_with(path, filters[from]) {
        from
    } else {
        first_match_from(filters, path, from + 1)
    }
}

/// The position of the first specifier that matches `path`; the length of the
/// list when none does.
pub open spec fn first_match(filters: Seq<Seq<char>>, path: Seq<char>) -> int {
    first_match_from(filters, path, 0)
}

/// Whether some specifier of the list matches `path` under the suffix rule.
pub open spec fn has_match(filters: Seq<Seq<char>>, path: Seq<char>) -> bool {
    first_match(filters, path) < filters.len()
}

/// The list without the element at `index`: the last element takes its place.
pub open spec fn swap_removed(filters: Seq<Seq<char>>, index: int) -> Seq<Seq<char>> {
    filters.update(index, filters.last()).drop_last()
}

/// The list after an entry at `path` was held against it: without the first
/// specifier that matches, unchanged when none does.
pub open spec fn consumed(filters: Seq<Seq<char>>, path: Seq<char>) -> Seq<Seq<char>> {
    if has_match(filters, path) {
        swap_removed(filters, first_match(filters, path))
    } else {
        filters
    }
}

/// The predicate "begins with the components of `prefix`".
pub open spec fn under(prefix: Seq<char>) -> spec_fn(Seq<char>) -> bool {
    |specifier: Seq<char>| starts_with(specifier, prefix)
}

/// The predicate "does not begin with the components of `prefix`".
pub open spec fn outside(prefix: Seq<char>) -> spec_fn(Seq<char>) -> bool {
    |specifier: Seq<char>| !starts_with(specifier, prefix)
}

/// The specifiers that belong inside the nested archive at `prefix`, in order.
pub open spec fn scoped(filters: Seq<Seq<char>>, prefix: Seq<char>) -> Seq<Seq<char>> {
    filters.filter(under(prefix))
}

/// The specifiers that stay at the current level when those under `prefix`
/// are set apart, in order.
pub open spec fn unscoped(filters: Seq<Seq<char>>, prefix: Seq<char>) -> Seq<Seq<char>> {
    filters.filter(outside(prefix))
}

/// What [`first_match_from`] finds: a position from `from` up to the length of
/// the list, before which no specifier matches, and at which one does unless it
/// is the length.
pub proof fn lemma_first_match_from(filters: Seq<Seq<char>>, path: Seq<char>, from: int)
    requires
        0 <= from <= filters.len(),
    ensures
        from <= first_match_from(filters, path, from) <= filters.len(),
        first_match_from(filters, path, from) < filters.len() ==> ends_with(
            path,
            filters[first_match_from(filters, path, from)],
        ),
        forall|j: int|
            from <= j < first_match_from(filters, path, from) ==> !ends_with(
                path,
                #[trigger] filters[j],
            ),
    decreases filters.len() - from,
{
    if from < filters.len() && !ends_with(path, filters[from]) {
        lemma_first_match_from(filters, path, from + 1);
    }
}

/// A match takes exactly one specifier out of the list, the first that
/// matches; every other specifier stays, and none is added. Without a match
/// the list stays as it is.
pub proof fn lemma_consumed_takes_one(filters: Seq<Seq<char>>, path: Seq<char>)
    ensures
        !has_match(filters, path) ==> consumed(filters, path) == filters,
        has_match(filters, path) ==> consumed(filters, path).len() == filters.len() - 1,
        has_match(filters, path) ==> ends_with(path, filters[first_match(filters, path)]),
        forall|s: Seq<char>| #[trigger]
            consumed(filters, path).contains(s) ==> filters.contains(s),
        forall|s: Seq<char>|
            filters.contains(s) && !ends_with(path, s) ==> #[trigger] consumed(
                filters,
                path,
            ).contains(s),
{
    lemma_first_match_from(filters, path, 0);
    let k = first_match(filters, path);
    let after = consumed(filters, path);
    if has_match(filters, path) {
        assert forall|s: Seq<char>| #[trigger] after.contains(s) implies filters.contains(s) by {
            let j = choose|j: int| 0 <= j < after.len() && after[j] == s;
            if j == k {
                assert(filters[filters.len() - 1] == s);
            } else {
                assert(filters[j] == s);
            }
        }
        assert forall|s: Seq<char>| filters.contains(s) && !ends_with(path, s) implies #[trigger]
            after.contains(s) by {
            let j = choose|j: int| 0 <= j < filters.len() && filters[j] == s;
            if j == filters.len() - 1 {
                assert(after[k] == s);
            } else {
                assert(after[j] == s);
            }
        }
    }
}

/// A specifier is spent by its match: in a list that names nothing twice, the
/// specifier that matched is no longer in the list afterwards, so that it
/// cannot remove a second entry.
pub proof fn lemma_consumed_specifier_is_spent(filters: Seq<Seq<char>>, path: Seq<char>)
    requires
        filters.no_duplicates(),
        has_match(filters, path),
    ensures
        !consumed(filters, path).contains(filters[first_match(filters, path)]),
        consumed(filters, path).no_duplicates(),
{
    lemma_first_match_from(filters, path, 0);
    let k = first_match(filters, path);
    let after = consumed(filters, path);
    assert forall|j: int| 0 <= j < after.len() implies after[j] != filters[k] by {
        if j == k {
            assert(after[j] == filters[filters.len() - 1]);
        } else {
            assert(after[j] == filters[j]);
        }
    }
    assert forall|i: int, j: int| 0 <= i < after.len() && 0 <= j < after.len() && i != j implies
        after[i] != after[j] by {
        let from_i = if i == k {
            filters.len() - 1
        } else {
            i
        };
        let from_j = if j == k {
            filters.len() - 1
        } else {
            j
        };
        assert(after[i] == filters[from_i]);
        assert(after[j] == filters[from_j]);
    }
}

/// Setting apart the specifiers under a prefix divides the list in two: those
/// set apart all begin with the prefix, those that stay do not, each specifier
/// of the list is in exactly one of the two, and nothing else is in either.
pub proof fn lemma_scoping_divides(filters: Seq<Seq<char>>, prefix: Seq<char>)
    ensures
        scoped(filters, prefix).len() + unscoped(filters, prefix).len() == filters.len(),
        forall|s: Seq<char>| #[trigger]
            scoped(filters, prefix).contains(s) <==> filters.contains(s) && starts_with(s, prefix),
        forall|s: Seq<char>| #[trigger]
            unscoped(filters, prefix).contains(s) <==> filters.contains(s) && !starts_with(
                s,
                prefix,
            ),
    decreases filters.len(),
{
    reveal(Seq::filter);
    let inside = scoped(filters, prefix);
    let outside_ = unscoped(filters, prefix);
    if filters.len() > 0 {
        let rest = filters.drop_last();
        let last = filters.last();
        lemma_scoping_divides(rest, prefix);
        let rest_in = scoped(rest, prefix);
        let rest_out = unscoped(rest, prefix);
        assert forall|s: Seq<char>| #[trigger]
            inside.contains(s) <==> filters.contains(s) && starts_with(s, prefix) by {
            if inside.contains(s) {
                let j = choose|j: int| 0 <= j < inside.len() && inside[j] == s;
                if starts_with(last, prefix) && j == inside.len() - 1 {
                    assert(filters[filters.len() - 1] == s);
                } else {
                    assert(rest_in[j] == s);
                    assert(rest_in.contains(s));
                    let i = choose|i: int| 0 <= i < rest.len() && rest[i] == s;
                    assert(filters[i] == s);
                }
            }
            if filters.contains(s) && starts_with(s, prefix) {
                let i = choose|i: int| 0 <= i < filters.len() && filters[i] == s;
                if i == filters.len() - 1 {
                    assert(inside[inside.len() - 1] == s);
                } else {
                    assert(rest[i] == s);
                    assert(rest_in.contains(s));
                    let j = choose|j: int| 0 <= j < rest_in.len() && rest_in[j] == s;
                    assert(inside[j] == s);
                }
            }
        }
        assert forall|s: Seq<char>| #[trigger]
            outside_.contains(s) <==> filters.contains(s) && !starts_with(s, prefix) by {
            if outside_.contains(s) {
                let j = choose|j: int| 0 <= j < outside_.len() && outside_[j] == s;
                if !starts_with(last, prefix) && j == outside_.len() - 1 {
                    assert(filters[filters.len() - 1] == s);
                } else {
                    assert(rest_out[j] == s);
                    assert(rest_out.contains(s));
                    let i = choose|i: int| 0 <= i < rest.len() && rest[i] == s;
                    assert(filters[i] == s);
                }
            }
            if filters.contains(s) && !starts_with(s, prefix) {
                let i = choose|i: int| 0 <= i < filters.len() && filters[i] == s;
                if i == filters.len() - 1 {
                    assert(outside_[outside_.len() - 1] == s);
                } else {
                    assert(rest[i] == s);
                    assert(rest_out.contains(s));
                    let j = choose|j: int| 0 <= j < rest_out.len() && rest_out[j] == s;
                    assert(outside_[j] == s);
                }
            }
        }
    }
}

/// A specifier that lies under the path of a nested archive reaches no entry
/// beside that archive: once the specifiers under `prefix` are set apart, no
/// entry at any path takes one of them out of the list that stays.
pub proof fn lemma_scoped_specifiers_spare_siblings(
    filters: Seq<Seq<char>>,
    prefix: Seq<char>,
    sibling: Seq<char>,
)
    ensures
        forall|s: Seq<char>|
            starts_with(s, prefix) ==> !(#[trigger] consumed(
                unscoped(filters, prefix),
                sibling,
            ).contains(s)) && !unscoped(filters, prefix).contains(s),
{
    lemma_scoping_divides(filters, prefix);
    lemma_consumed_takes_one(unscoped(filters, prefix), sibling);
}

/// Drops the entry at `path` if the list asks for it. Returns whether a
/// specifier matched; the first one that did is removed from the list, and the
/// last specifier takes its place.
pub fn consume(filters: &mut Vec<String>, path: &str) -> (found: bool)
    ensures
        found == has_match(specifiers(old(filters)@), path@),
        specifiers(final(filters)@) == consumed(specifiers(old(filters)@), path@),
{
    let ghost before = specifiers(filters@);
    let mut i: usize = 0;
    while i < filters.len()
        invariant
            i <= filters.len(),
            specifiers(filters@) == before,
            *filters == *old(filters),
            first_match_from(before, path@, i as int) == first_match(before, path@),
        decreases filters.len() - i,
    {
        assert(before[i as int] == filters@[i as int]@);
        if path_ends_with(path, filters[i].as_str()) {
            filters.swap_remove(i);
            assert(specifiers(filters@) == swap_removed(before, i as int));
            return true;
        }
        i = i + 1;
    }
    false
}

/// Sets apart the specifiers that lie under `filter`: they are taken out of
/// `input` and returned, in their order; the others stay in `input`, in their
/// order.
pub fn retain_inner_vec(input: &mut Vec<String>, filter: &str) -> (inner: Vec<String>)
    ensures
        specifiers(inner@) == scoped(specifiers(old(input)@), filter@),
        specifiers(final(input)@) == unscoped(specifiers(old(input)@), filter@),
{
    let ghost before = specifiers(input@);
    let mut inner: Vec<String> = Vec::new();
    let mut outer: Vec<String> = Vec::new();
    let mut i: usize = 0;
    proof {
        reveal(Seq::filter);
        assert(before.subrange(0, 0).filter(under(filter@)) == Seq::<Seq<char>>::empty());
        assert(before.subrange(0, 0).filter(outside(filter@)) == Seq::<Seq<char>>::empty());
    }
    while i < input.len()
        invariant
            i <= input.len(),
            *input == *old(input),
            before == specifiers(input@),
            specifiers(inner@) == before.subrange(0, i as int).filter(under(filter@)),
            specifiers(outer@) == before.subrange(0, i as int).filter(outside(filter@)),
        decreases input.len() - i,
    {
        let specifier = input[i].clone();
        proof {
            let upto = before.subrange(0, i as int + 1);
            assert(upto.drop_last() == before.subrange(0, i as int));
            assert(upto.last() == specifier@);
            reveal(Seq::filter);
        }
        if path_starts_with(specifier.as_str(), filter) {
            let ghost earlier = specifiers(inner@);
            inner.push(specifier);
            assert(specifiers(inner@) == earlier.push(specifier@));
        } else {
            let ghost earlier = specifiers(outer@);
            outer.push(specifier);
            assert(specifiers(outer@) == earlier.push(specifier@));
        }
        i = i + 1;
    }
    assert(before.subrange(0, i as int) == before);
    *input = outer;
    inner
}

} // verus!
