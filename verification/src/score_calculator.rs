use vstd::prelude::*;

verus! {

/// A strategy that turns a candidate split into one raw plausibility
/// score, in fixed-point units of [`crate::divided_name::SCORE_SCALE`].
/// Every calculator is deterministic: what it answers is fixed by its own
/// mathematical score function.
pub trait ScoreCalculator: Sized {
    /// When the calculator is ready to score.
    spec fn wf(&self) -> bool;

    /// The score the calculator assigns to a candidate split.
    spec fn spec_score(&self, family: Seq<char>, given: Seq<char>) -> int;

    /// Scores one candidate split of a name of at least three code points
    /// into two non-empty pieces.
    fn calc_score(&self, family: &String, given: &String) -> (score: i64)
        requires
            self.wf(),
            1 <= family@.len(),
            1 <= given@.len(),
            3 <= family@.len() + given@.len() <= usize::MAX,
        ensures
            score == self.spec_score(family@, given@),
    ;
}

} // verus!
