//! Reading the filter list: one column of a delimited text.
//!
//! The text is split into records and fields by the `csv` crate. What it finds
//! in given bytes is named by [`csv_rows`]; the functions of this module say
//! which field of each record is taken.

use crate::error::{Failure, PackError};
use vstd::prelude::*;

verus! {

/// The records that `csv` reads from `bytes`, in order, each with its fields;
/// `None` for a record that it reports as an error. With `header` the first
/// record is a header and is not among them.
pub uninterp spec fn csv_rows(bytes: Seq<u8>, header: bool) -> Seq<Option<Seq<Seq<char>>>>;

/// What a vector of fields holds.
pub open spec fn fields_view(fields: Seq<String>) -> Seq<Seq<char>> {
    fields.map_values(|field: String| field@)
}

/// What a vector of records holds.
pub open spec fn rows_view(rows: Seq<Option<Vec<String>>>) -> Seq<Option<Seq<Seq<char>>>> {
    rows.map_values(
        |row: Option<Vec<String>>|
            match row {
                Some(fields) => Some(fields_view(fields@)),
                None => None,
            },
    )
}

/// Reads all records of `bytes` with a `csv::Reader` made by
/// `csv::ReaderBuilder` with `has_headers(header)`. The contract names what
/// was read and claims nothing else of it.
#[verifier::external_body]
fn read_rows(bytes: &[u8], header: bool) -> (rows: Vec<Option<Vec<String>>>)
    ensures
        rows_view(rows@) == csv_rows(bytes@, header),
{
    csv::ReaderBuilder::new().has_headers(header).from_reader(bytes).into_records().map(
        |row| row.ok().map(|record| record.iter().map(String::from).collect()),
    ).collect()
}

/// The field with the one-based index `index` of every record, in order. The
/// first record that is an error, or that has no such field, decides the
/// failure.
pub open spec fn column(rows: Seq<Option<Seq<Seq<char>>>>, index: usize) -> Result<
    Seq<Seq<char>>,
    Failure,
>
    decreases rows.len(),
{
    if rows.len() == 0 {
        Ok(Seq::empty())
    } else {
        match column(rows.drop_last(), index) {
            Err(failure) => Err(failure),
            Ok(taken) => match rows.last() {
                None => Err(Failure::FilterListUnreadable),
                Some(fields) => if 0 < index <= fields.len() {
                    Ok(taken.push(fields[index - 1]))
                } else {
                    Err(Failure::FilterColumnNotFound(index))
                },
            },
        }
    }
}

/// Takes the field with the one-based index `index` out of every record, in
/// order. The first record that is an error, or that has no such field, ends
/// it with the failure.
pub fn select_column(rows: &Vec<Option<Vec<String>>>, index: usize) -> (res: Result<
    Vec<String>,
    PackError,
>)
    ensures
        match res {
            Ok(list) => column(rows_view(rows@), index) == Ok::<Seq<Seq<char>>, Failure>(
                fields_view(list@),
            ),
            Err(e) => column(rows_view(rows@), index) == Err::<Seq<Seq<char>>, Failure>(e@),
        },
{
    let ghost all = rows_view(rows@);
    let mut list: Vec<String> = Vec::new();
    let mut i: usize = 0;
    assert(all.subrange(0, 0) == Seq::<Option<Seq<Seq<char>>>>::empty());
    assert(fields_view(list@) == Seq::<Seq<char>>::empty());
    while i < rows.len()
        invariant
            i <= rows.len(),
            rows_view(rows@) == all,
            column(all.subrange(0, i as int), index) == Ok::<Seq<Seq<char>>, Failure>(
                fields_view(list@),
            ),
        decreases rows.len() - i,
    {
        proof {
            let upto = all.subrange(0, i as int + 1);
            assert(upto.drop_last() == all.subrange(0, i as int));
            assert(upto.last() == all[i as int]);
            assert(all[i as int] == rows_view(rows@)[i as int]);
            lemma_column_fails_on(all, i as int + 1, index);
        }
        match &rows[i] {
            None => {
                return Err(PackError::FilterListUnreadable);
            },
            Some(fields) => {
                if 0 < index && index <= fields.len() {
                    let ghost earlier = fields_view(list@);
                    let field = fields[index - 1].clone();
                    list.push(field);
                    assert(fields_view(list@) == earlier.push(fields@[index - 1]@));
                    assert(fields_view(fields@)[index - 1] == fields@[index - 1]@);
                } else {
                    return Err(PackError::FilterColumnNotFound(index));
                }
            },
        }
        i = i + 1;
    }
    assert(all.subrange(0, i as int) == all);
    Ok(list)
}

/// The filter list that `bytes` hold in the column with the one-based index
/// `index`. With `header` the first record is skipped.
pub fn parse_csv(bytes: &[u8], index: usize, header: bool) -> (res: Result<Vec<String>, PackError>)
    ensures
        match res {
            Ok(list) => column(csv_rows(bytes@, header), index) == Ok::<Seq<Seq<char>>, Failure>(
                fields_view(list@),
            ),
            Err(e) => column(csv_rows(bytes@, header), index) == Err::<Seq<Seq<char>>, Failure>(
                e@,
            ),
        },
{
    let rows = read_rows(bytes, header);
    select_column(&rows, index)
}

/// A failure among the first `count` records is the failure of the whole
/// list.
pub proof fn lemma_column_fails_on(rows: Seq<Option<Seq<Seq<char>>>>, count: int, index: usize)
    requires
        0 <= count <= rows.len(),
    ensures
        column(rows.subrange(0, count), index) is Err ==> column(rows, index) == column(
            rows.subrange(0, count),
            index,
        ),
    decreases rows.len() - count,
{
    if count < rows.len() {
        lemma_column_fails_on(rows, count + 1, index);
        let next = rows.subrange(0, count + 1);
        assert(next.drop_last() == rows.subrange(0, count));
    } else {
        assert(rows.subrange(0, count) == rows);
    }
}

} // verus!
