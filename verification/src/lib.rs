//! Player-statistics records and their fantasy score.
//!
//! The library turns one raw tabular row (column label paired with text)
//! into a typed `PlayerStatRecord`, computes the derived fantasy score,
//! and processes a whole dataset of rows in order, failing fast on the
//! first malformed row. Numeric fields are fixed-point decimals with six
//! fractional digits, so every stated value is exact.

pub mod dataset;
pub mod decimal;
pub mod person;
pub mod record;
pub mod score;
