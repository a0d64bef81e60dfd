//! The derived fantasy score of a player record.
//!
//! The score is `(5·goals + 2·assists + 3.5·saves + 1·shots + 0.5·demos
//! inflicted − 0.5·demos taken) · 100`. Over mantissas scaled by one
//! million that is an exact integer combination with weights 500, 200,
//! 350, 100, 50 and −50, so the score is computed without rounding. It is
//! total: every record gets a score, and an `i128` mantissa leaves no room
//! for overflow.

use vstd::prelude::*;
use crate::record::{PlayerStatRecord, RecordModel};

verus! {

/// The derived score, held exactly as `mantissa / 1_000_000`.
#[derive(Clone, Copy, Debug, PartialEq, Eq, Structural)]
pub struct FantasyScore {
    pub mantissa: i128,
}

/// Scaled value of the fantasy score of a record model: the weighted sum
/// of its six scoring statistics, at the same one-million scale.
pub open spec fn fantasy_mantissa(m: RecordModel) -> int {
    500 * m.goals_per_game + 200 * m.assists_per_game + 350 * m.saves_per_game + 100
        * m.shots_per_game + 50 * m.demos_inf_per_game - 50 * m.demos_taken_per_game
}

/// Computes the fantasy score of a record.
///
/// Total and pure: the result is exactly `fantasy_mantissa` of the
/// record's model, for every record.
pub fn compute_fantasy_score(rec: &PlayerStatRecord) -> (s: FantasyScore)
    ensures
        s.mantissa == fantasy_mantissa(rec@),
{
    let goals = rec.goals_per_game.mantissa as i128;
    let assists = rec.assists_per_game.mantissa as i128;
    let saves = rec.saves_per_game.mantissa as i128;
    let shots = rec.shots_per_game.mantissa as i128;
    let demos_inf = rec.demos_inf_per_game.mantissa as i128;
    let demos_taken = rec.demos_taken_per_game.mantissa as i128;
    FantasyScore {
        mantissa: 500 * goals + 200 * assists + 350 * saves + 100 * shots + 50 * demos_inf - 50
            * demos_taken,
    }
}

/// The fantasy score is a pure function of the numeric fields: two records
/// whose numeric fields agree get the same score, whatever their names.
pub proof fn lemma_score_pure(a: RecordModel, b: RecordModel)
    requires
        a.dominance_quotient == b.dominance_quotient,
        a.avg_score == b.avg_score,
        a.goals_per_game == b.goals_per_game,
        a.assists_per_game == b.assists_per_game,
        a.saves_per_game == b.saves_per_game,
        a.shots_per_game == b.shots_per_game,
        a.shooting_percentage == b.shooting_percentage,
        a.demos_inf_per_game == b.demos_inf_per_game,
        a.demos_taken_per_game == b.demos_taken_per_game,
    ensures
        fantasy_mantissa(a) == fantasy_mantissa(b),
{
}

/// The fantasy score is linear in each weighted input: the scores of any
/// two records differ by exactly the weighted sum of the differences of
/// their six scoring statistics. In particular, raising `goals_per_game`
/// by some delta, all else fixed, raises the score by 500 times that delta
/// (that is, by 5.0 · 100.0 times it at the value level).
pub proof fn lemma_score_linear(a: RecordModel, b: RecordModel)
    ensures
        fantasy_mantissa(b) - fantasy_mantissa(a) == 500 * (b.goals_per_game - a.goals_per_game)
            + 200 * (b.assists_per_game - a.assists_per_game) + 350 * (b.saves_per_game
            - a.saves_per_game) + 100 * (b.shots_per_game - a.shots_per_game) + 50 * (
        b.demos_inf_per_game - a.demos_inf_per_game) - 50 * (b.demos_taken_per_game
            - a.demos_taken_per_game),
{
}

} // verus!
