use vstd::prelude::*;
use crate::divided_name::SCORE_SCALE;
use crate::score_calculator::ScoreCalculator;

verus! {

/// A degenerate calculator that prefers a two-character family name: a
/// candidate whose family piece has exactly two code points scores one,
/// every other candidate scores zero.
pub struct TwoCharScoreCalculator {}

impl ScoreCalculator for TwoCharScoreCalculator {
    open spec fn wf(&self) -> bool {
        true
    }

    open spec fn spec_score(&self, family: Seq<char>, given: Seq<char>) -> int {
        if family.len() == 2 {
            SCORE_SCALE as int
        } else {
            0
        }
    }

    fn calc_score(&self, family: &String, given: &String) -> (score: i64) {
        if family.as_str().unicode_len() == 2 {
            SCORE_SCALE as i64
        } else {
            0
        }
    }
}

} // verus!
