//! Fail-fast processing of a whole dataset of raw rows.
//!
//! `process_dataset` parses and scores each row in source order. On the
//! first row that cannot be parsed it stops and reports that row's index
//! together with the underlying record error; no partial results are
//! returned. The `SourceUnavailable` variant is the slot for an upstream
//! row source that fails mid-stream; the in-memory entry point below never
//! produces it.

use vstd::prelude::*;
use crate::record::{PlayerStatRecord, RecordError, parse_record, parse_row_spec};
use crate::score::{FantasyScore, compute_fantasy_score, fantasy_mantissa};

verus! {

/// Why a dataset could not be processed to the end.
#[derive(Debug, Clone, PartialEq, Eq)]
pub enum DatasetError {
    /// Parsing failed at the row with this zero-based index, for this
    /// reason.
    RowFailed { index: usize, cause: RecordError },
    /// The upstream row source failed; raised by external row sources,
    /// never by `process_dataset` itself.
    SourceUnavailable,
}

/// `entry` is the parsed record and exact score of the raw row `row`.
pub open spec fn scored(row: Seq<(String, String)>, entry: (PlayerStatRecord, FantasyScore)) -> bool {
    &&& parse_row_spec(row) matches Ok(m) && entry.0@ == m && entry.1.mantissa == fantasy_mantissa(
        m,
    )
}

/// Parses and scores every raw row, in source order.
///
/// Succeeds exactly when every row parses; the output then pairs each
/// row's record with its score, in the rows' order. Otherwise it fails on
/// the first row that does not parse, reporting its index and cause.
pub fn process_dataset(rows: &Vec<Vec<(String, String)>>) -> (r: Result<
    Vec<(PlayerStatRecord, FantasyScore)>,
    DatasetError,
>)
    ensures
        r is Ok <==> (forall|i: int|
            0 <= i < rows@.len() ==> parse_row_spec(#[trigger] rows@[i]@) is Ok),
        r matches Ok(out) ==> out@.len() == rows@.len() && (forall|i: int|
            0 <= i < rows@.len() ==> #[trigger] scored(rows@[i]@, out@[i])),
        r matches Err(e) ==> e matches DatasetError::RowFailed { index, cause } && {
            &&& index < rows@.len()
            &&& parse_row_spec(rows@[index as int]@) matches Err(em) && cause@ == em
            &&& forall|i: int| 0 <= i < index ==> parse_row_spec(#[trigger] rows@[i]@) is Ok
        },
{
    let mut out: Vec<(PlayerStatRecord, FantasyScore)> = Vec::new();
    let mut i: usize = 0;
    while i < rows.len()
        invariant
            i <= rows@.len(),
            out@.len() == i,
            forall|k: int| 0 <= k < i ==> #[trigger] scored(rows@[k]@, out@[k]),
        decreases rows@.len() - i,
    {
        match parse_record(&rows[i]) {
            Ok(rec) => {
                let score = compute_fantasy_score(&rec);
                out.push((rec, score));
            },
            Err(cause) => {
                proof {
                    assert forall|k: int| 0 <= k < i implies parse_row_spec(
                        #[trigger] rows@[k]@,
                    ) is Ok by {
                        assert(scored(rows@[k]@, out@[k]));
                    }
                }
                return Err(DatasetError::RowFailed { index: i, cause });
            },
        }
        i = i + 1;
    }
    proof {
        assert forall|i: int| 0 <= i < rows@.len() implies parse_row_spec(
            #[trigger] rows@[i]@,
        ) is Ok by {
            assert(scored(rows@[i]@, out@[i]));
        }
    }
    Ok(out)
}

} // verus!
