//! Turning the rows of a delimited-text file into a series of points.
//!
//! Every row is data; a row whose first two fields are not both numbers, or
//! that has fewer than two fields, is skipped. A file with no usable row is an
//! error.

use vstd::prelude::*;
use crate::number::{decimal_units, parse_decimal};

verus! {

/// What the comma-separated reader makes of a file's bytes: its rows, each a
/// sequence of unquoted fields, or `None` when the reader reports an error.
pub uninterp spec fn csv_rows_of(content: Seq<u8>) -> Option<Seq<Seq<Seq<u8>>>>;

/// Relies on csv's `ReaderBuilder` with no header row and rows of any length,
/// and on its byte-record iterator: each row in file order, each field's bytes
/// after unquoting. The rows depend on the bytes alone.
#[verifier::external_body]
pub(crate) fn read_rows(content: &Vec<u8>) -> (r: Option<Vec<Vec<Vec<u8>>>>)
    ensures
        match r {
            Some(rows) => csv_rows_of(content@) == Some(rows.deep_view()),
            None => csv_rows_of(content@) is None,
        },
        content@.len() == 0 ==> r is Some && r.unwrap()@.len() == 0,
{
    csv::ReaderBuilder::new().has_headers(false).flexible(true).from_reader(content.as_slice())
        .byte_records().map(|rec| rec.map(|fields| fields.iter().map(|f| f.to_vec()).collect()))
        .collect::<Result<Vec<Vec<Vec<u8>>>, csv::Error>>().ok()
}

/// Why a file gave no series.
#[derive(Debug, Clone, Copy, PartialEq, Eq, Structural)]
pub enum LoadError {
    /// The reader could not split the content into rows.
    Unreadable,
    /// No row held two numbers in its first two fields.
    NoValidData,
}

impl LoadError {
    pub open spec fn spec_message(self) -> Seq<char> {
        match self {
            LoadError::Unreadable => "the file is not readable as comma-separated text"@,
            LoadError::NoValidData => "No valid data found in CSV"@,
        }
    }

    /// A sentence that tells the user what went wrong.
    pub fn message(&self) -> (r: String)
        ensures
            r@ == self.spec_message(),
    {
        match self {
            LoadError::Unreadable => String::from_str("the file is not readable as comma-separated text"),
            LoadError::NoValidData => String::from_str("No valid data found in CSV"),
        }
    }
}

/// The point a row stands for, if its first two fields are numbers.
pub open spec fn point_of(row: Seq<Seq<u8>>) -> Option<(int, int)> {
    if row.len() >= 2 {
        match (decimal_units(row[0]), decimal_units(row[1])) {
            (Some(x), Some(y)) => Some((x, y)),
            _ => None,
        }
    } else {
        None
    }
}

/// The points of the usable rows, in row order.
pub open spec fn points_of(rows: Seq<Seq<Seq<u8>>>) -> Seq<(int, int)>
    decreases rows.len(),
{
    if rows.len() == 0 {
        seq![]
    } else {
        let before = points_of(rows.drop_last());
        match point_of(rows.last()) {
            Some(p) => before.push(p),
            None => before,
        }
    }
}

pub open spec fn points_view(v: Seq<(i128, i128)>) -> Seq<(int, int)> {
    v.map_values(|p: (i128, i128)| (p.0 as int, p.1 as int))
}

/// The series of the given rows, or `NoValidData` when no row is usable.
pub open spec fn series_of(rows: Seq<Seq<Seq<u8>>>) -> Result<Seq<(int, int)>, LoadError> {
    if points_of(rows).len() == 0 {
        Err(LoadError::NoValidData)
    } else {
        Ok(points_of(rows))
    }
}

/// The series a file's content loads as.
pub open spec fn load_of(content: Seq<u8>) -> Result<Seq<(int, int)>, LoadError> {
    match csv_rows_of(content) {
        Some(rows) => series_of(rows),
        None => Err(LoadError::Unreadable),
    }
}

pub open spec fn result_view(r: Result<Vec<(i128, i128)>, LoadError>) -> Result<
    Seq<(int, int)>,
    LoadError,
> {
    match r {
        Ok(v) => Ok(points_view(v@)),
        Err(e) => Err(e),
    }
}

/// The point of one row, if its first two fields are numbers.
pub fn row_point(row: &Vec<Vec<u8>>) -> (r: Option<(i128, i128)>)
    ensures
        match r {
            Some(p) => point_of(row.deep_view()) == Some((p.0 as int, p.1 as int)),
            None => point_of(row.deep_view()) is None,
        },
{
    if row.len() < 2 {
        return None;
    }
    let x = parse_decimal(&row[0]);
    let y = parse_decimal(&row[1]);
    proof {
        assert(row.deep_view()[0] == row[0]@);
        assert(row.deep_view()[1] == row[1]@);
    }
    match (x, y) {
        (Some(a), Some(b)) => Some((a, b)),
        _ => None,
    }
}

/// Keeps the usable rows' points, in row order; fails when there are none.
pub fn series_from_rows(rows: &Vec<Vec<Vec<u8>>>) -> (r: Result<Vec<(i128, i128)>, LoadError>)
    ensures
        result_view(r) == series_of(rows.deep_view()),
{
    let mut points: Vec<(i128, i128)> = Vec::new();
    let mut i: usize = 0;
    while i < rows.len()
        invariant
            i <= rows@.len(),
            points_view(points@) == points_of(rows.deep_view().take(i as int)),
        decreases rows@.len() - i,
    {
        let p = row_point(&rows[i]);
        proof {
            let dv = rows.deep_view();
            assert(dv.take(i as int + 1).drop_last() =~= dv.take(i as int));
            assert(dv.take(i as int + 1).last() == rows[i as int].deep_view());
        }
        match p {
            Some(q) => {
                let ghost before = points@;
                points.push(q);
                assert(points_view(points@) =~= points_view(before).push((q.0 as int, q.1 as int)));
            },
            None => {},
        }
        i = i + 1;
    }
    assert(rows.deep_view().take(rows@.len() as int) =~= rows.deep_view());
    if points.len() == 0 {
        Err(LoadError::NoValidData)
    } else {
        Ok(points)
    }
}

/// Loads the series that a file's content holds.
pub fn load_points(content: &Vec<u8>) -> (r: Result<Vec<(i128, i128)>, LoadError>)
    ensures
        result_view(r) == load_of(content@),
{
    match read_rows(content) {
        Some(rows) => series_from_rows(&rows),
        None => Err(LoadError::Unreadable),
    }
}


/// Every usable row gives one point: when all rows of a file are usable, its
/// series has exactly as many points as the file has rows, in row order.
pub proof fn lemma_all_rows_kept(rows: Seq<Seq<Seq<u8>>>)
    requires
        forall|i: int| 0 <= i < rows.len() ==> (#[trigger] point_of(rows[i])) is Some,
    ensures
        points_of(rows).len() == rows.len(),
        forall|i: int|
            0 <= i < rows.len() ==> Some(#[trigger] points_of(rows)[i]) == point_of(rows[i]),
    decreases rows.len(),
{
    if rows.len() > 0 {
        let front = rows.drop_last();
        assert forall|i: int| 0 <= i < front.len() implies (#[trigger] point_of(front[i])) is Some by {
            assert(front[i] == rows[i]);
        }
        lemma_all_rows_kept(front);
        assert(point_of(rows[rows.len() - 1]) is Some);
        assert forall|i: int| 0 <= i < rows.len() implies Some(
            #[trigger] points_of(rows)[i],
        ) == point_of(rows[i]) by {
            if i < rows.len() - 1 {
                assert(front[i] == rows[i]);
            }
        }
    }
}

} // verus!
