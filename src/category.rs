//! The categorical series: rows of a label and a count, shown as bars.
//!
//! Each usable row is one bar, in row order, with no sorting and no merging
//! of equal labels. Bars take their colours in turn from a palette of
//! `PALETTE_SIZE`.

use vstd::prelude::*;
use crate::number::{all_digits, digits_value, scan_digits};
use crate::records::{csv_rows_of, read_rows, LoadError};

verus! {

/// How many colours the bars take in turn.
pub const PALETTE_SIZE: usize = 6;

/// The value of a field that holds a non-negative integer that fits a `u64`.
pub open spec fn count_value(s: Seq<u8>) -> Option<nat> {
    if s.len() > 0 && all_digits(s) && digits_value(s) <= u64::MAX {
        Some(digits_value(s))
    } else {
        None
    }
}

/// The bar a row stands for: its first field as the label, if its second
/// field is a count.
pub open spec fn bar_of(row: Seq<Seq<u8>>) -> Option<(Seq<u8>, nat)> {
    if row.len() >= 2 {
        match count_value(row[1]) {
            Some(v) => Some((row[0], v)),
            None => None,
        }
    } else {
        None
    }
}

/// The bars of the usable rows, in row order.
pub open spec fn bars_of(rows: Seq<Seq<Seq<u8>>>) -> Seq<(Seq<u8>, nat)>
    decreases rows.len(),
{
    if rows.len() == 0 {
        seq![]
    } else {
        let before = bars_of(rows.drop_last());
        match bar_of(rows.last()) {
            Some(b) => before.push(b),
            None => before,
        }
    }
}

pub open spec fn bars_view(v: Seq<(Vec<u8>, u64)>) -> Seq<(Seq<u8>, nat)> {
    v.map_values(|b: (Vec<u8>, u64)| (b.0@, b.1 as nat))
}

/// The bars a file's content loads as.
pub open spec fn load_bars_of(content: Seq<u8>) -> Result<Seq<(Seq<u8>, nat)>, LoadError> {
    match csv_rows_of(content) {
        Some(rows) => if bars_of(rows).len() == 0 {
            Err(LoadError::NoValidData)
        } else {
            Ok(bars_of(rows))
        },
        None => Err(LoadError::Unreadable),
    }
}

/// Reads a field as a non-negative integer.
pub fn parse_count(s: &Vec<u8>) -> (r: Option<u64>)
    ensures
        match r {
            Some(v) => count_value(s@) == Some(v as nat),
            None => count_value(s@) is None,
        },
{
    let (end, value) = scan_digits(s, 0);
    if end != s.len() || end == 0 {
        proof {
            if end != s.len() {
                assert(!crate::number::is_digit(s@[end as int]));
            }
        }
        return None;
    }
    assert(s@.subrange(0, end as int) =~= s@);
    match value {
        Some(v) => {
            if v > u64::MAX as u128 {
                None
            } else {
                Some(v as u64)
            }
        },
        None => None,
    }
}

/// The bar of one row, if its second field is a count.
pub fn row_bar(row: &Vec<Vec<u8>>) -> (r: Option<(Vec<u8>, u64)>)
    ensures
        match r {
            Some(b) => bar_of(row.deep_view()) == Some((b.0@, b.1 as nat)),
            None => bar_of(row.deep_view()) is None,
        },
{
    if row.len() < 2 {
        return None;
    }
    proof {
        assert(row.deep_view()[0] == row[0]@);
        assert(row.deep_view()[1] == row[1]@);
    }
    match parse_count(&row[1]) {
        Some(v) => Some((row[0].clone(), v)),
        None => None,
    }
}

/// Keeps the usable rows' bars, in row order; fails when there are none.
pub fn bars_from_rows(rows: &Vec<Vec<Vec<u8>>>) -> (r: Result<Vec<(Vec<u8>, u64)>, LoadError>)
    ensures
        match r {
            Ok(v) => bars_of(rows.deep_view()).len() > 0 && bars_view(v@) == bars_of(
                rows.deep_view(),
            ),
            Err(e) => bars_of(rows.deep_view()).len() == 0 && e == LoadError::NoValidData,
        },
{
    let mut bars: Vec<(Vec<u8>, u64)> = Vec::new();
    let mut i: usize = 0;
    while i < rows.len()
        invariant
            i <= rows@.len(),
            bars_view(bars@) == bars_of(rows.deep_view().take(i as int)),
        decreases rows@.len() - i,
    {
        let b = row_bar(&rows[i]);
        proof {
            let dv = rows.deep_view();
            assert(dv.take(i as int + 1).drop_last() =~= dv.take(i as int));
            assert(dv.take(i as int + 1).last() == rows[i as int].deep_view());
        }
        match b {
            Some(q) => {
                let ghost before = bars@;
                let ghost item = (q.0@, q.1 as nat);
                bars.push(q);
                assert(bars_view(bars@) =~= bars_view(before).push(item));
            },
            None => {},
        }
        i = i + 1;
    }
    assert(rows.deep_view().take(rows@.len() as int) =~= rows.deep_view());
    if bars.len() == 0 {
        Err(LoadError::NoValidData)
    } else {
        Ok(bars)
    }
}

/// Loads the bars that a file's content holds.
pub fn load_bars(content: &Vec<u8>) -> (r: Result<Vec<(Vec<u8>, u64)>, LoadError>)
    ensures
        match r {
            Ok(v) => load_bars_of(content@) == Ok::<Seq<(Seq<u8>, nat)>, LoadError>(
                bars_view(v@),
            ),
            Err(e) => load_bars_of(content@) == Err::<Seq<(Seq<u8>, nat)>, LoadError>(e),
        },
{
    match read_rows(content) {
        Some(rows) => bars_from_rows(&rows),
        None => Err(LoadError::Unreadable),
    }
}

/// The palette entry of the bar at `index`.
pub fn color_index(index: usize) -> (r: usize)
    ensures
        r == index % PALETTE_SIZE,
        r < PALETTE_SIZE,
{
    index % PALETTE_SIZE
}

/// The palette entries of `count` bars, in bar order.
pub fn bar_colors(count: usize) -> (r: Vec<usize>)
    ensures
        r@.len() == count,
        forall|i: int| 0 <= i < count ==> #[trigger] r@[i] == i % PALETTE_SIZE as int,
{
    let mut r: Vec<usize> = Vec::new();
    let mut i: usize = 0;
    while i < count
        invariant
            i <= count,
            r@.len() == i,
            forall|k: int| 0 <= k < i ==> #[trigger] r@[k] == k % PALETTE_SIZE as int,
        decreases count - i,
    {
        r.push(color_index(i));
        i = i + 1;
    }
    r
}

} // verus!
