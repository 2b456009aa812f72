//! The recipient table: comma-separated text, one recipient per row.
//!
//! The columns are name, address and a free third value; further columns count for nothing.
//! Every row that is no comment is a recipient, the first one too: the table has no heading
//! row. A line that begins with `#` is a comment, and so is a row whose name begins with it.
//! One row that is no comment and has fewer than three columns spoils the whole table.

use crate::text::{begins_with, starts_with_char};
use vstd::prelude::*;

verus! {

/// One recipient.
#[derive(Debug, PartialEq, Eq)]
pub struct RecipientRecord {
    /// The name to address the recipient by.
    pub name: String,
    /// The address to send to.
    pub email: String,
    /// The third column, for the templates to use.
    pub data: String,
}

/// What a recipient record holds.
pub ghost struct RecordView {
    pub name: Seq<char>,
    pub email: Seq<char>,
    pub data: Seq<char>,
}

impl View for RecipientRecord {
    type V = RecordView;

    open spec fn view(&self) -> RecordView {
        RecordView { name: self.name@, email: self.email@, data: self.data@ }
    }
}

impl Clone for RecipientRecord {
    fn clone(&self) -> (copy: Self)
        ensures
            copy == *self,
    {
        RecipientRecord {
            name: self.name.clone(),
            email: self.email.clone(),
            data: self.data.clone(),
        }
    }
}

impl DeepView for RecipientRecord {
    type V = RecordView;

    open spec fn deep_view(&self) -> RecordView {
        self@
    }
}

/// Why a text gives no recipient table.
#[derive(Debug, PartialEq, Eq)]
pub enum LoadError {
    /// The text is not comma-separated values; the reader's own words.
    Malformed(String),
    /// The row with this index, counted from 0 over the rows read, has fewer than three
    /// columns.
    MissingColumns(usize),
}

/// The byte that opens a comment line.
pub const COMMENT_BYTE: u8 = 35;

/// The character that opens a comment.
pub const COMMENT_MARKER: char = '#';

/// Whether the first row of the table is a heading: it is not, every row is a recipient.
pub const HEADING_ROW: bool = false;

/// Whether the rows of the table may differ in length: they may.
pub const ANY_WIDTH: bool = true;

/// The two forms of the comment marker are one character.
pub proof fn lemma_markers_agree()
    ensures
        COMMENT_MARKER as u8 == COMMENT_BYTE,
        COMMENT_BYTE as char == COMMENT_MARKER,
{
}

/// `csv::Error`, what the reader reports of a text that it cannot read.
#[verifier::external_type_specification]
#[verifier::external_body]
pub struct ExCsvError(csv::Error);

/// The rows that the `csv` reader finds in `content`, each with its fields, when the first row
/// is a heading and no data if `heading`, rows may differ in length if `flexible`, and lines
/// that begin with the byte `marker` are comments; `None` where the reader reports an error.
pub uninterp spec fn csv_table(
    content: Seq<char>,
    heading: bool,
    flexible: bool,
    marker: u8,
) -> Option<Seq<Seq<Seq<char>>>>;

/// Reads all of `content` with a reader of the `csv` crate (`ReaderBuilder` with
/// `has_headers`, `flexible` and `comment`, then `Reader::records`) and hands out the fields
/// of every row as strings, or the first error that the reader reports.
/// Claimed of it: the rows depend on nothing but the text and the three settings.
#[verifier::external_body]
fn parse_rows(content: &str, heading: bool, flexible: bool, marker: u8) -> (rows: Result<
    Vec<Vec<String>>,
    csv::Error,
>)
    ensures
        match csv_table(content@, heading, flexible, marker) {
            Some(table) => rows is Ok && rows->Ok_0.deep_view() == table,
            None => rows is Err,
        },
{
    let mut reader = csv::ReaderBuilder::new().has_headers(heading).flexible(flexible).comment(
        Some(marker),
    ).from_reader(content.as_bytes());
    let mut rows = Vec::new();
    for row in reader.records() {
        rows.push(row?.iter().map(String::from).collect());
    }
    Ok(rows)
}

/// Whether a row is a comment: its name begins with the comment marker.
pub open spec fn is_comment_row(row: Seq<Seq<char>>) -> bool {
    row.len() > 0 && begins_with(row[0], COMMENT_MARKER)
}

/// Whether a row is no comment and has fewer than three columns.
pub open spec fn lacks_columns(row: Seq<Seq<char>>) -> bool {
    !is_comment_row(row) && row.len() < 3
}

/// The recipient that a row of at least three columns stands for.
pub open spec fn record_of(row: Seq<Seq<char>>) -> RecordView {
    RecordView { name: row[0], email: row[1], data: row[2] }
}

/// The recipients of a table: its rows without the comments, in the order of the rows.
pub open spec fn records_of(rows: Seq<Seq<Seq<char>>>) -> Seq<RecordView>
    decreases rows.len(),
{
    if rows.len() == 0 {
        Seq::empty()
    } else if is_comment_row(rows.last()) {
        records_of(rows.drop_last())
    } else {
        records_of(rows.drop_last()).push(record_of(rows.last()))
    }
}

/// The index of the first row that lacks columns.
pub open spec fn first_short_row(rows: Seq<Seq<Seq<char>>>) -> Option<nat>
    decreases rows.len(),
{
    if rows.len() == 0 {
        None
    } else {
        match first_short_row(rows.drop_last()) {
            Some(i) => Some(i),
            None => if lacks_columns(rows.last()) {
                Some((rows.len() - 1) as nat)
            } else {
                None
            },
        }
    }
}

/// What a table of rows loads as: its recipients, or the index of the first row that lacks
/// columns.
pub open spec fn table_of(rows: Seq<Seq<Seq<char>>>) -> Result<Seq<RecordView>, nat> {
    match first_short_row(rows) {
        Some(i) => Err(i),
        None => Ok(records_of(rows)),
    }
}

/// What a text loads as: `None` where it is not comma-separated values, else what its rows
/// load as.
pub open spec fn loaded(content: Seq<char>) -> Option<Result<Seq<RecordView>, nat>> {
    match csv_table(content, HEADING_ROW, ANY_WIDTH, COMMENT_BYTE) {
        Some(rows) => Some(table_of(rows)),
        None => None,
    }
}

/// Whether `outcome` is what `expected` asks for.
pub open spec fn load_matches(
    outcome: Result<Vec<RecipientRecord>, LoadError>,
    expected: Result<Seq<RecordView>, nat>,
) -> bool {
    match outcome {
        Ok(records) => expected == Ok::<Seq<RecordView>, nat>(records.deep_view()),
        Err(LoadError::MissingColumns(row)) => expected == Err::<Seq<RecordView>, nat>(row as nat),
        Err(LoadError::Malformed(_)) => false,
    }
}

/// The first short row of a table is short, and no row before it is.
pub proof fn lemma_first_short_row(rows: Seq<Seq<Seq<char>>>)
    ensures
        match first_short_row(rows) {
            Some(i) => i < rows.len() && lacks_columns(rows[i as int]) && forall|j: int|
                0 <= j < i ==> !lacks_columns(#[trigger] rows[j]),
            None => forall|j: int| 0 <= j < rows.len() ==> !lacks_columns(#[trigger] rows[j]),
        },
    decreases rows.len(),
{
    if rows.len() > 0 {
        lemma_first_short_row(rows.drop_last());
        assert forall|j: int| 0 <= j < rows.len() - 1 implies rows.drop_last()[j] == rows[j] by {}
        match first_short_row(rows.drop_last()) {
            Some(i) => {
                assert(rows.drop_last()[i as int] == rows[i as int]);
                assert forall|j: int| 0 <= j < i implies !lacks_columns(#[trigger] rows[j]) by {
                    assert(rows.drop_last()[j] == rows[j]);
                }
            },
            None => {
                assert forall|j: int| 0 <= j < rows.len() - 1 implies !lacks_columns(
                    #[trigger] rows[j],
                ) by {
                    assert(rows.drop_last()[j] == rows[j]);
                }
            },
        }
    }
}

/// A short row among the first `k` rows is the first short row of the whole table too.
pub proof fn lemma_short_row_stays(rows: Seq<Seq<Seq<char>>>, k: int)
    requires
        0 <= k <= rows.len(),
        first_short_row(rows.take(k)) is Some,
    ensures
        first_short_row(rows) == first_short_row(rows.take(k)),
    decreases rows.len() - k,
{
    if k == rows.len() {
        assert(rows.take(k) =~= rows);
    } else {
        assert(rows.drop_last().take(k) =~= rows.take(k));
        lemma_short_row_stays(rows.drop_last(), k);
    }
}

/// Makes the recipient table of rows that were read: the comments left out, the others in
/// their order; or says which row is the first to lack columns.
pub fn records_from_rows(rows: &Vec<Vec<String>>) -> (outcome: Result<Vec<RecipientRecord>, LoadError>)
    ensures
        load_matches(outcome, table_of(rows.deep_view())),
{
    let ghost table = rows.deep_view();
    let mut records: Vec<RecipientRecord> = Vec::new();
    let mut i: usize = 0;
    assert(table.take(0) =~= Seq::<Seq<Seq<char>>>::empty());
    while i < rows.len()
        invariant
            i <= rows.len(),
            table == rows.deep_view(),
            first_short_row(table.take(i as int)) is None,
            records.deep_view() == records_of(table.take(i as int)),
        decreases rows.len() - i,
    {
        let row = &rows[i];
        let ghost seen = table.take(i as int);
        let ghost more = table.take(i + 1);
        assert(more.drop_last() =~= seen);
        assert(more.last() == row.deep_view());
        assert(row.deep_view().len() == row.len());
        if row.len() > 0 && starts_with_char(row[0].as_str(), COMMENT_MARKER) {
            assert(row.deep_view()[0] == row[0]@);
            assert(is_comment_row(more.last()));
        } else if row.len() < 3 {
            proof {
                if row.len() > 0 {
                    assert(row.deep_view()[0] == row[0]@);
                }
                assert(lacks_columns(more.last()));
                assert(first_short_row(more) == Some(i as nat));
                lemma_short_row_stays(table, i + 1);
            }
            return Err(LoadError::MissingColumns(i));
        } else {
            let record = RecipientRecord {
                name: row[0].clone(),
                email: row[1].clone(),
                data: row[2].clone(),
            };
            proof {
                assert(row.deep_view()[0] == row[0]@);
                assert(row.deep_view()[1] == row[1]@);
                assert(row.deep_view()[2] == row[2]@);
                assert(record@ == record_of(more.last()));
            }
            let ghost before = records.deep_view();
            records.push(record);
            assert(records.deep_view() =~= before.push(record@));
        }
        i = i + 1;
    }
    assert(table.take(i as int) =~= table);
    Ok(records)
}

/// Reads the recipient table from comma-separated text.
///
/// Fails as a whole where the text is not comma-separated values or one of its rows lacks
/// columns: no part of a table is ever handed out.
pub fn read_csv_file(content: &str) -> (outcome: Result<Vec<RecipientRecord>, LoadError>)
    ensures
        match loaded(content@) {
            Some(expected) => load_matches(outcome, expected),
            None => outcome matches Err(LoadError::Malformed(_)),
        },
{
    match parse_rows(content, HEADING_ROW, ANY_WIDTH, COMMENT_BYTE) {
        Ok(rows) => records_from_rows(&rows),
        Err(error) => Err(LoadError::Malformed(error.to_string())),
    }
}

/// A row that lacks columns anywhere in the table leaves no table at all.
pub proof fn lemma_short_row_spoils_table(rows: Seq<Seq<Seq<char>>>, i: int)
    requires
        0 <= i < rows.len(),
        lacks_columns(rows[i]),
    ensures
        table_of(rows) is Err,
{
    lemma_first_short_row(rows);
}

/// The recipients of a table are its rows that are no comments, none left out and none
/// added, each read as a recipient, in the order of the rows.
pub proof fn lemma_records_are_rows(rows: Seq<Seq<Seq<char>>>)
    ensures
        records_of(rows) == rows.filter(|row: Seq<Seq<char>>| !is_comment_row(row)).map_values(
            |row: Seq<Seq<char>>| record_of(row),
        ),
    decreases rows.len(),
{
    reveal(Seq::filter);
    let keep = |row: Seq<Seq<char>>| !is_comment_row(row);
    let read = |row: Seq<Seq<char>>| record_of(row);
    if rows.len() == 0 {
        assert(records_of(rows) =~= rows.filter(keep).map_values(read));
    } else {
        lemma_records_are_rows(rows.drop_last());
        let kept = rows.drop_last().filter(keep);
        if !is_comment_row(rows.last()) {
            assert(kept.push(rows.last()).map_values(read) =~= kept.map_values(read).push(
                record_of(rows.last()),
            ));
        }
    }
}

/// A table without comments has one recipient for each row, in the order of the rows.
pub proof fn lemma_one_record_per_row(rows: Seq<Seq<Seq<char>>>)
    requires
        forall|j: int| 0 <= j < rows.len() ==> !is_comment_row(#[trigger] rows[j]),
    ensures
        records_of(rows).len() == rows.len(),
        forall|j: int| 0 <= j < rows.len() ==> #[trigger] records_of(rows)[j] == record_of(rows[j]),
    decreases rows.len(),
{
    if rows.len() > 0 {
        let front = rows.drop_last();
        assert forall|j: int| 0 <= j < front.len() implies !is_comment_row(#[trigger] front[j]) by {
            assert(front[j] == rows[j]);
        }
        lemma_one_record_per_row(front);
        assert(!is_comment_row(rows[rows.len() - 1]));
        assert forall|j: int| 0 <= j < rows.len() implies #[trigger] records_of(rows)[j] == record_of(
            rows[j],
        ) by {
            if j < front.len() {
                assert(records_of(rows)[j] == records_of(front)[j]);
                assert(front[j] == rows[j]);
            }
        }
    }
}

} // verus!
