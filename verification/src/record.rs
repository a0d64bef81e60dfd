//! Typed per-player statistics records parsed from raw tabular rows.
//!
//! A raw row is a sequence of column-label/text pairs. `parse_record` turns
//! one row into a `PlayerStatRecord`, reporting a `MalformedRecord` error
//! for the first required column (in schema order) that is absent, and a
//! `NumericConversionError` for the first numeric column whose text is not
//! a representable decimal numeral. The spec function `parse_row_spec`
//! states the whole behaviour, and `parse_record`'s contract pins the
//! result to it.

use vstd::prelude::*;
use crate::decimal::{
    Decimal,
    decimal_fits,
    decimal_mantissa,
    is_decimal_text,
    parse_decimal,
};

verus! {

/// One player's season averages, all numeric fields exact fixed-point
/// decimals.
#[derive(Debug, Clone)]
pub struct PlayerStatRecord {
    pub name: String,
    pub dominance_quotient: Decimal,
    pub avg_score: Decimal,
    pub goals_per_game: Decimal,
    pub assists_per_game: Decimal,
    pub saves_per_game: Decimal,
    pub shots_per_game: Decimal,
    pub shooting_percentage: Decimal,
    pub demos_inf_per_game: Decimal,
    pub demos_taken_per_game: Decimal,
}

/// Mathematical model of a record: the name's characters and each numeric
/// field's scaled integer value.
pub ghost struct RecordModel {
    pub name: Seq<char>,
    pub dominance_quotient: int,
    pub avg_score: int,
    pub goals_per_game: int,
    pub assists_per_game: int,
    pub saves_per_game: int,
    pub shots_per_game: int,
    pub shooting_percentage: int,
    pub demos_inf_per_game: int,
    pub demos_taken_per_game: int,
}

impl View for PlayerStatRecord {
    type V = RecordModel;

    open spec fn view(&self) -> RecordModel {
        RecordModel {
            name: self.name@,
            dominance_quotient: self.dominance_quotient.mantissa as int,
            avg_score: self.avg_score.mantissa as int,
            goals_per_game: self.goals_per_game.mantissa as int,
            assists_per_game: self.assists_per_game.mantissa as int,
            saves_per_game: self.saves_per_game.mantissa as int,
            shots_per_game: self.shots_per_game.mantissa as int,
            shooting_percentage: self.shooting_percentage.mantissa as int,
            demos_inf_per_game: self.demos_inf_per_game.mantissa as int,
            demos_taken_per_game: self.demos_taken_per_game.mantissa as int,
        }
    }
}

/// Why one row could not be parsed.
#[derive(Debug, Clone, PartialEq, Eq)]
pub enum RecordError {
    /// A required column is missing; carries that column's label.
    MalformedRecord { column: String },
    /// A numeric column's text is not a representable decimal numeral;
    /// carries the column's label and the offending text.
    NumericConversionError { column: String, text: String },
}

/// Mathematical model of a `RecordError`.
pub ghost enum RecordErrorModel {
    MissingColumn { column: Seq<char> },
    NotNumeric { column: Seq<char>, text: Seq<char> },
}

impl View for RecordError {
    type V = RecordErrorModel;

    open spec fn view(&self) -> RecordErrorModel {
        match self {
            RecordError::MalformedRecord { column } => RecordErrorModel::MissingColumn {
                column: column@,
            },
            RecordError::NumericConversionError { column, text } => RecordErrorModel::NotNumeric {
                column: column@,
                text: text@,
            },
        }
    }
}

/// Text of the first pair of `row` labelled `name`, if any.
pub open spec fn lookup_spec(row: Seq<(String, String)>, name: Seq<char>) -> Option<Seq<char>>
    decreases row.len(),
{
    if row.len() == 0 {
        None
    } else if row[0].0@ == name {
        Some(row[0].1@)
    } else {
        lookup_spec(row.subrange(1, row.len() as int), name)
    }
}

/// The row supplies the column `name`.
pub open spec fn col_present(row: Seq<(String, String)>, name: Seq<char>) -> bool {
    lookup_spec(row, name) is Some
}

/// Text held by the column `name`; meaningful only when present.
pub open spec fn col_text(row: Seq<(String, String)>, name: Seq<char>) -> Seq<char> {
    lookup_spec(row, name).unwrap()
}

/// The column is present and its text is a representable decimal numeral.
pub open spec fn col_numeric(row: Seq<(String, String)>, name: Seq<char>) -> bool {
    &&& col_present(row, name)
    &&& is_decimal_text(col_text(row, name))
    &&& decimal_fits(col_text(row, name))
}

/// Scaled value of the column's numeral; meaningful only when numeric.
pub open spec fn col_mantissa(row: Seq<(String, String)>, name: Seq<char>) -> int {
    decimal_mantissa(col_text(row, name))
}

/// The outcome of a numeric column in schema order: its missing-column
/// error, its conversion error, or nothing wrong.
pub open spec fn numeric_col_error(row: Seq<(String, String)>, name: Seq<char>) -> Option<
    RecordErrorModel,
> {
    if !col_present(row, name) {
        Some(RecordErrorModel::MissingColumn { column: name })
    } else if !col_numeric(row, name) {
        Some(RecordErrorModel::NotNumeric { column: name, text: col_text(row, name) })
    } else {
        None
    }
}

/// What parsing one raw row yields: the record's model, or the error for
/// the first offending column in schema order.
pub open spec fn parse_row_spec(row: Seq<(String, String)>) -> Result<
    RecordModel,
    RecordErrorModel,
> {
    if !col_present(row, "Player"@) {
        Err(RecordErrorModel::MissingColumn { column: "Player"@ })
    } else if numeric_col_error(row, "Dominance Quotient"@) is Some {
        Err(numeric_col_error(row, "Dominance Quotient"@).unwrap())
    } else if numeric_col_error(row, "Avg Score"@) is Some {
        Err(numeric_col_error(row, "Avg Score"@).unwrap())
    } else if numeric_col_error(row, "Goals Per Game"@) is Some {
        Err(numeric_col_error(row, "Goals Per Game"@).unwrap())
    } else if numeric_col_error(row, "Assists Per Game"@) is Some {
        Err(numeric_col_error(row, "Assists Per Game"@).unwrap())
    } else if numeric_col_error(row, "Saves Per Game"@) is Some {
        Err(numeric_col_error(row, "Saves Per Game"@).unwrap())
    } else if numeric_col_error(row, "Shots Per Game"@) is Some {
        Err(numeric_col_error(row, "Shots Per Game"@).unwrap())
    } else if numeric_col_error(row, "Shooting %"@) is Some {
        Err(numeric_col_error(row, "Shooting %"@).unwrap())
    } else if numeric_col_error(row, "Demos Inf. Per Game"@) is Some {
        Err(numeric_col_error(row, "Demos Inf. Per Game"@).unwrap())
    } else if numeric_col_error(row, "Demos Taken Per Game"@) is Some {
        Err(numeric_col_error(row, "Demos Taken Per Game"@).unwrap())
    } else {
        Ok(
            RecordModel {
                name: col_text(row, "Player"@),
                dominance_quotient: col_mantissa(row, "Dominance Quotient"@),
                avg_score: col_mantissa(row, "Avg Score"@),
                goals_per_game: col_mantissa(row, "Goals Per Game"@),
                assists_per_game: col_mantissa(row, "Assists Per Game"@),
                saves_per_game: col_mantissa(row, "Saves Per Game"@),
                shots_per_game: col_mantissa(row, "Shots Per Game"@),
                shooting_percentage: col_mantissa(row, "Shooting %"@),
                demos_inf_per_game: col_mantissa(row, "Demos Inf. Per Game"@),
                demos_taken_per_game: col_mantissa(row, "Demos Taken Per Game"@),
            },
        )
    }
}

/// Text of the first pair of `row` labelled `name`, if any.
fn lookup(row: &Vec<(String, String)>, name: &String) -> (r: Option<String>)
    ensures
        r is Some <==> col_present(row@, name@),
        r matches Some(v) ==> v@ == col_text(row@, name@),
{
    let mut i: usize = 0;
    proof {
        assert(row@.subrange(0, row@.len() as int) =~= row@);
    }
    while i < row.len()
        invariant
            i <= row@.len(),
            lookup_spec(row@.subrange(i as int, row@.len() as int), name@) == lookup_spec(
                row@,
                name@,
            ),
        decreases row@.len() - i,
    {
        proof {
            assert(row@.subrange(i as int, row@.len() as int)[0] == row@[i as int]);
        }
        if row[i].0 == *name {
            return Some(row[i].1.clone());
        }
        proof {
            assert(row@.subrange(i as int, row@.len() as int).subrange(
                1,
                row@.len() - i,
            ) =~= row@.subrange(i as int + 1, row@.len() as int));
        }
        i = i + 1;
    }
    proof {
        assert(row@.subrange(row@.len() as int, row@.len() as int) =~= Seq::<
            (String, String),
        >::empty());
    }
    None
}

/// Fetches one numeric column and parses its text.
fn get_decimal(row: &Vec<(String, String)>, name: &str) -> (r: Result<Decimal, RecordError>)
    ensures
        r is Ok <==> numeric_col_error(row@, name@) is None,
        r matches Ok(d) ==> d.mantissa == col_mantissa(row@, name@),
        r matches Err(e) ==> e@ == numeric_col_error(row@, name@).unwrap(),
{
    let owned = name.to_owned();
    match lookup(row, &owned) {
        None => Err(RecordError::MalformedRecord { column: owned }),
        Some(text) => match parse_decimal(text.as_str()) {
            Some(d) => Ok(d),
            None => Err(RecordError::NumericConversionError { column: owned, text }),
        },
    }
}

/// Parses one raw row into a `PlayerStatRecord`.
///
/// Succeeds exactly when every required column is present and every numeric
/// column holds a representable decimal numeral; otherwise reports the
/// first offending column in schema order, as `parse_row_spec` states.
pub fn parse_record(row: &Vec<(String, String)>) -> (r: Result<PlayerStatRecord, RecordError>)
    ensures
        r is Ok <==> parse_row_spec(row@) is Ok,
        r matches Ok(rec) ==> parse_row_spec(row@) matches Ok(m) && rec@ == m,
        r matches Err(e) ==> parse_row_spec(row@) matches Err(em) && e@ == em,
{
    let player = "Player".to_owned();
    let name = match lookup(row, &player) {
        Some(t) => t,
        None => {
            return Err(RecordError::MalformedRecord { column: player });
        },
    };
    let dominance_quotient = match get_decimal(row, "Dominance Quotient") {
        Ok(d) => d,
        Err(e) => {
            return Err(e);
        },
    };
    let avg_score = match get_decimal(row, "Avg Score") {
        Ok(d) => d,
        Err(e) => {
            return Err(e);
        },
    };
    let goals_per_game = match get_decimal(row, "Goals Per Game") {
        Ok(d) => d,
        Err(e) => {
            return Err(e);
        },
    };
    let assists_per_game = match get_decimal(row, "Assists Per Game") {
        Ok(d) => d,
        Err(e) => {
            return Err(e);
        },
    };
    let saves_per_game = match get_decimal(row, "Saves Per Game") {
        Ok(d) => d,
        Err(e) => {
            return Err(e);
        },
    };
    let shots_per_game = match get_decimal(row, "Shots Per Game") {
        Ok(d) => d,
        Err(e) => {
            return Err(e);
        },
    };
    let shooting_percentage = match get_decimal(row, "Shooting %") {
        Ok(d) => d,
        Err(e) => {
            return Err(e);
        },
    };
    let demos_inf_per_game = match get_decimal(row, "Demos Inf. Per Game") {
        Ok(d) => d,
        Err(e) => {
            return Err(e);
        },
    };
    let demos_taken_per_game = match get_decimal(row, "Demos Taken Per Game") {
        Ok(d) => d,
        Err(e) => {
            return Err(e);
        },
    };
    Ok(
        PlayerStatRecord {
            name,
            dominance_quotient,
            avg_score,
            goals_per_game,
            assists_per_game,
            saves_per_game,
            shots_per_game,
            shooting_percentage,
            demos_inf_per_game,
            demos_taken_per_game,
        },
    )
}

} // verus!
