use vstd::prelude::*;
use crate::basic_score_calculator::BasicScoreCalculator;
use crate::divided_name::{DividedName, DividedNameModel, NameDividerError};
use crate::extractor::SimpleFeatureExtractor;
use crate::kanji::{entries_map, KanjiStatistics, KanjiStatisticsRepository};
use crate::name_divider::NameDivider;
use crate::name_divider_base::NameDividerBase;

verus! {

/// The divider backed by the statistics-only score calculator.
pub struct BasicNameDivider {
    pub basic_score_calculator: BasicScoreCalculator,
    pub name_divider_base: NameDividerBase,
}

impl NameDivider for BasicNameDivider {
    open spec fn wf(&self) -> bool {
        self.basic_score_calculator.feature_extractor.wf()
    }

    open spec fn spec_divide(&self, name: Seq<char>) -> Option<DividedNameModel> {
        self.name_divider_base.spec_divide(self.basic_score_calculator, name)
    }

    fn divide_name(&self, undivided_name: &String) -> Result<DividedName, NameDividerError> {
        self.name_divider_base.divide_name(undivided_name, &self.basic_score_calculator)
    }
}

/// Builds a statistics-backed divider from the decoded entries of the
/// bundled per-kanji statistics asset.
pub fn get_basic_name_divider(
    separator: String,
    normalize_name: bool,
    algorithm_name: String,
    only_order_score_when_4: bool,
    kanji_statistics: Vec<KanjiStatistics>,
) -> (divider: BasicNameDivider)
    requires
        forall|i: int| 0 <= i < kanji_statistics@.len() ==> (#[trigger] kanji_statistics@[i]).wf(),
    ensures
        divider.wf(),
        divider.basic_score_calculator.feature_extractor.kanji_statistics_repository.stat_map()
            == entries_map(kanji_statistics@),
        divider.basic_score_calculator.only_order_score_when_4 == only_order_score_when_4,
        divider.name_divider_base.separator == separator,
        divider.name_divider_base.normalize_name == normalize_name,
        divider.name_divider_base.algorithm_name == algorithm_name,
{
    let repo = KanjiStatisticsRepository::new(kanji_statistics);
    let feature_extractor = SimpleFeatureExtractor { kanji_statistics_repository: repo };
    let basic_score_calculator = BasicScoreCalculator {
        feature_extractor,
        only_order_score_when_4,
    };
    let name_divider_base = NameDividerBase::new(separator, normalize_name, algorithm_name);
    BasicNameDivider { basic_score_calculator, name_divider_base }
}

} // verus!
