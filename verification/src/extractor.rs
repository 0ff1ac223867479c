use vstd::prelude::*;
use crate::family_name::FamilyNameRepository;
use crate::functional::{
    calc_length_score, calc_order_score, spec_length_score, spec_order_score,
};
use crate::kanji::KanjiStatisticsRepository;

verus! {

/// The four statistical features of a candidate split, in fixed-point
/// units of [`crate::divided_name::SCORE_SCALE`].
pub struct SimpleFeatures {
    pub family_order_score: u128,
    pub family_length_score: u128,
    pub given_order_score: u128,
    pub given_length_score: u128,
}

/// Derives the simple feature set from the per-kanji statistics table.
pub struct SimpleFeatureExtractor {
    pub kanji_statistics_repository: KanjiStatisticsRepository,
}

impl SimpleFeatureExtractor {
    pub open spec fn wf(self) -> bool {
        self.kanji_statistics_repository.wf()
    }

    /// The order and length scores of both pieces of a candidate split.
    pub fn get_features(&self, family: &String, given: &String) -> (features: SimpleFeatures)
        requires
            self.wf(),
            family@.len() + given@.len() <= usize::MAX,
        ensures
            ({
                let repo = self.kanji_statistics_repository;
                let full = family@.len() + given@.len();
                &&& features.family_order_score == spec_order_score(repo, family@, full as int, 0)
                &&& features.family_length_score == spec_length_score(repo, family@, full as int, 0)
                &&& features.given_order_score == spec_order_score(
                    repo,
                    given@,
                    full as int,
                    family@.len() as int,
                )
                &&& features.given_length_score == spec_length_score(
                    repo,
                    given@,
                    full as int,
                    family@.len() as int,
                )
            }),
    {
        let fullname_length = family.as_str().unicode_len() + given.as_str().unicode_len();
        let family_order_score = calc_order_score(
            &self.kanji_statistics_repository,
            family,
            fullname_length,
            0,
        );
        let family_length_score = calc_length_score(
            &self.kanji_statistics_repository,
            family,
            fullname_length,
            0,
        );
        let given_order_score = calc_order_score(
            &self.kanji_statistics_repository,
            given,
            fullname_length,
            family.as_str().unicode_len(),
        );
        let given_length_score = calc_length_score(
            &self.kanji_statistics_repository,
            given,
            fullname_length,
            family.as_str().unicode_len(),
        );
        SimpleFeatures { family_order_score, family_length_score, given_order_score, given_length_score }
    }
}

/// Whether a given-name piece begins with one of the ten kanji that are
/// empirically common at the start of given names.
pub open spec fn spec_given_marker(given: Seq<char>) -> bool {
    given.len() > 0 && (given[0] == '田' || given[0] == '谷' || given[0] == '川' || given[0] == '島'
        || given[0] == '原' || given[0] == '村' || given[0] == '塚' || given[0] == '森' || given[0]
        == '井' || given[0] == '子')
}

/// The nine features of the model-based calculator.  The family rank is
/// absent for an unknown family name, a neutral value; the order and
/// length scores are fixed-point.
pub struct FamilyRankingFeatures {
    pub rank: Option<u64>,
    pub fullname_length: usize,
    pub family_length: usize,
    pub given_length: usize,
    pub family_order_score: u128,
    pub given_order_score: u128,
    pub family_length_score: u128,
    pub given_length_score: u128,
    pub given_startswith_specific_kanji: bool,
}

/// Derives the ranking feature set from the per-kanji statistics table and
/// the ranked family-name table.
pub struct FamilyRankingFeatureExtractor {
    pub kanji_statistics_repository: KanjiStatisticsRepository,
    pub family_name_repository: FamilyNameRepository,
}

impl FamilyRankingFeatureExtractor {
    pub open spec fn wf(self) -> bool {
        self.kanji_statistics_repository.wf()
    }

    /// The nine model features of a candidate split.
    pub fn get_features(&self, family: &String, given: &String) -> (features: FamilyRankingFeatures)
        requires
            self.wf(),
            family@.len() + given@.len() <= usize::MAX,
        ensures
            ({
                let repo = self.kanji_statistics_repository;
                let full = family@.len() + given@.len();
                &&& match features.rank {
                    Option::Some(r) => self.family_name_repository.spec_rank(family@)
                        == Option::Some(r as int),
                    Option::None => self.family_name_repository.spec_rank(family@) is None,
                }
                &&& features.fullname_length == full
                &&& features.family_length == family@.len()
                &&& features.given_length == given@.len()
                &&& features.family_order_score == spec_order_score(repo, family@, full as int, 0)
                &&& features.family_length_score == spec_length_score(repo, family@, full as int, 0)
                &&& features.given_order_score == spec_order_score(
                    repo,
                    given@,
                    full as int,
                    family@.len() as int,
                )
                &&& features.given_length_score == spec_length_score(
                    repo,
                    given@,
                    full as int,
                    family@.len() as int,
                )
                &&& features.given_startswith_specific_kanji == spec_given_marker(given@)
            }),
    {
        let rank = self.family_name_repository.get_rank(family);
        let family_length = family.as_str().unicode_len();
        let given_length = given.as_str().unicode_len();
        let fullname_length = family_length + given_length;
        let family_order_score = calc_order_score(
            &self.kanji_statistics_repository,
            family,
            fullname_length,
            0,
        );
        let family_length_score = calc_length_score(
            &self.kanji_statistics_repository,
            family,
            fullname_length,
            0,
        );
        let given_order_score = calc_order_score(
            &self.kanji_statistics_repository,
            given,
            fullname_length,
            family_length,
        );
        let given_length_score = calc_length_score(
            &self.kanji_statistics_repository,
            given,
            fullname_length,
            family_length,
        );
        let given_startswith_specific_kanji = if given_length >= 1 {
            let c = given.as_str().get_char(0);
            c == '田' || c == '谷' || c == '川' || c == '島' || c == '原' || c == '村' || c == '塚'
                || c == '森' || c == '井' || c == '子'
        } else {
            false
        };
        FamilyRankingFeatures {
            rank,
            fullname_length,
            family_length,
            given_length,
            family_order_score,
            given_order_score,
            family_length_score,
            given_length_score,
            given_startswith_specific_kanji,
        }
    }
}

} // verus!
