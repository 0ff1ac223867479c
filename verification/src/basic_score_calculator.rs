use vstd::prelude::*;
use vstd::arithmetic::div_mod::{
    lemma_div_by_multiple, lemma_div_is_ordered, lemma_div_pos_is_pos,
};
use crate::divided_name::SCORE_SCALE;
use crate::extractor::SimpleFeatureExtractor;
use crate::functional::{
    lemma_length_score_to_bounds, lemma_mul_distribute, lemma_order_score_family_le,
    lemma_order_score_given_le, spec_length_score, spec_order_score,
};
use crate::kanji::KanjiStatisticsRepository;
use crate::score_calculator::ScoreCalculator;

verus! {

/// The score of a candidate split from the aggregated statistics alone:
/// the mean of the two pieces' order scores over the ambiguous positions,
/// blended with the mean of their length scores — except that, when the
/// four-character shortcut is configured and the name has four code
/// points, the order mean alone decides.
pub open spec fn spec_basic_score(
    repo: KanjiStatisticsRepository,
    only_order_score_when_4: bool,
    family: Seq<char>,
    given: Seq<char>,
) -> int {
    let full = family.len() + given.len() as int;
    let order_score = (spec_order_score(repo, family, full as int, 0) + spec_order_score(
        repo,
        given,
        full as int,
        family.len() as int,
    )) / (full - 2);
    if only_order_score_when_4 && full == 4 {
        order_score
    } else {
        let length_score = (spec_length_score(repo, family, full as int, 0) + spec_length_score(
            repo,
            given,
            full as int,
            family.len() as int,
        )) / (full as int);
        (order_score + length_score) / 2
    }
}

/// The statistics-only score calculator.
pub struct BasicScoreCalculator {
    pub feature_extractor: SimpleFeatureExtractor,
    pub only_order_score_when_4: bool,
}

/// The basic score always lies between zero and one: each of the blended
/// means is an average of per-character probabilities.
pub proof fn lemma_basic_score_in_unit(
    repo: KanjiStatisticsRepository,
    only_order_score_when_4: bool,
    family: Seq<char>,
    given: Seq<char>,
)
    requires
        repo.wf(),
        1 <= family.len(),
        1 <= given.len(),
        3 <= family.len() + given.len(),
    ensures
        0 <= spec_basic_score(repo, only_order_score_when_4, family, given) <= SCORE_SCALE,
{
    let full = (family.len() + given.len()) as int;
    let fo = spec_order_score(repo, family, full, 0);
    let go = spec_order_score(repo, given, full, family.len() as int);
    let fl = spec_length_score(repo, family, full, 0);
    let gl = spec_length_score(repo, given, full, family.len() as int);
    lemma_order_score_family_le(repo, family, full, family.len() as int);
    lemma_order_score_given_le(repo, given, full, family.len() as int);
    lemma_length_score_to_bounds(repo, family, full, 0, family.len() as int);
    lemma_length_score_to_bounds(
        repo,
        given,
        full,
        family.len() as int,
        given.len() as int,
    );
    lemma_mul_distribute(family.len() - 1, given.len() - 1, SCORE_SCALE as int);
    lemma_mul_distribute(family.len() as int, given.len() as int, SCORE_SCALE as int);
    lemma_div_pos_is_pos(fo + go, full - 2);
    lemma_div_is_ordered(fo + go, (full - 2) * SCORE_SCALE, full - 2);
    lemma_div_by_multiple(SCORE_SCALE as int, full - 2);
    assert((full - 2) * SCORE_SCALE == SCORE_SCALE * (full - 2)) by (nonlinear_arith);
    lemma_div_pos_is_pos(fl + gl, full);
    lemma_div_is_ordered(fl + gl, full * SCORE_SCALE, full);
    lemma_div_by_multiple(SCORE_SCALE as int, full);
    assert(full * SCORE_SCALE == SCORE_SCALE * full) by (nonlinear_arith);
}

impl ScoreCalculator for BasicScoreCalculator {
    open spec fn wf(&self) -> bool {
        self.feature_extractor.wf()
    }

    open spec fn spec_score(&self, family: Seq<char>, given: Seq<char>) -> int {
        spec_basic_score(
            self.feature_extractor.kanji_statistics_repository,
            self.only_order_score_when_4,
            family,
            given,
        )
    }

    fn calc_score(&self, family: &String, given: &String) -> (score: i64) {
        let fullname_length = family.as_str().unicode_len() + given.as_str().unicode_len();
        let features = self.feature_extractor.get_features(family, given);
        proof {
            lemma_basic_score_in_unit(
                self.feature_extractor.kanji_statistics_repository,
                self.only_order_score_when_4,
                family@,
                given@,
            );
            let repo = self.feature_extractor.kanji_statistics_repository;
            let full = (family@.len() + given@.len()) as int;
            lemma_order_score_family_le(repo, family@, full, family@.len() as int);
            lemma_order_score_given_le(repo, given@, full, family@.len() as int);
            lemma_div_pos_is_pos(
                spec_order_score(repo, family@, full, 0) + spec_order_score(
                    repo,
                    given@,
                    full,
                    family@.len() as int,
                ),
                full - 2,
            );
            lemma_div_is_ordered(
                spec_order_score(repo, family@, full, 0) + spec_order_score(
                    repo,
                    given@,
                    full,
                    family@.len() as int,
                ),
                (full - 2) * SCORE_SCALE,
                full - 2,
            );
            lemma_div_by_multiple(SCORE_SCALE as int, full - 2);
            lemma_mul_distribute(family@.len() - 1, given@.len() - 1, SCORE_SCALE as int);
            assert((full - 2) * SCORE_SCALE == SCORE_SCALE * (full - 2)) by (nonlinear_arith);
        }
        let order_score: u128 = (features.family_order_score + features.given_order_score) / ((
        fullname_length - 2) as u128);
        if self.only_order_score_when_4 && fullname_length == 4 {
            return order_score as i64;
        }
        proof {
            let repo = self.feature_extractor.kanji_statistics_repository;
            let full = (family@.len() + given@.len()) as int;
            lemma_length_score_to_bounds(repo, family@, full, 0, family@.len() as int);
            lemma_length_score_to_bounds(
                repo,
                given@,
                full,
                family@.len() as int,
                given@.len() as int,
            );
            lemma_div_pos_is_pos(
                spec_length_score(repo, family@, full, 0) + spec_length_score(
                    repo,
                    given@,
                    full,
                    family@.len() as int,
                ),
                full,
            );
            lemma_div_is_ordered(
                spec_length_score(repo, family@, full, 0) + spec_length_score(
                    repo,
                    given@,
                    full,
                    family@.len() as int,
                ),
                full * SCORE_SCALE,
                full,
            );
            lemma_div_by_multiple(SCORE_SCALE as int, full);
            lemma_mul_distribute(family@.len() as int, given@.len() as int, SCORE_SCALE as int);
            assert(full * SCORE_SCALE == SCORE_SCALE * full) by (nonlinear_arith);
        }
        let length_score: u128 = (features.family_length_score + features.given_length_score) / (
        fullname_length as u128);
        ((order_score + length_score) / 2) as i64
    }
}

} // verus!
