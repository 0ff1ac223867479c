use vstd::prelude::*;
use crate::divided_name::{DividedName, DividedNameModel, NameDividerError};
use crate::name_divider::NameDivider;
use crate::name_divider_base::NameDividerBase;
use crate::two_char_score_calculator::TwoCharScoreCalculator;

verus! {

/// The divider backed by the degenerate two-character-family calculator.
pub struct TwoCharNameDivider {
    pub two_char_score_calculator: TwoCharScoreCalculator,
    pub name_divider_base: NameDividerBase,
}

impl NameDivider for TwoCharNameDivider {
    open spec fn wf(&self) -> bool {
        true
    }

    open spec fn spec_divide(&self, name: Seq<char>) -> Option<DividedNameModel> {
        self.name_divider_base.spec_divide(self.two_char_score_calculator, name)
    }

    fn divide_name(&self, undivided_name: &String) -> Result<DividedName, NameDividerError> {
        self.name_divider_base.divide_name(undivided_name, &self.two_char_score_calculator)
    }
}

/// Builds the two-character-family divider.
pub fn get_two_char_name_divider(
    separator: String,
    normalize_name: bool,
    algorithm_name: String,
) -> (divider: TwoCharNameDivider)
    ensures
        divider.wf(),
        divider.name_divider_base.separator == separator,
        divider.name_divider_base.normalize_name == normalize_name,
        divider.name_divider_base.algorithm_name == algorithm_name,
{
    let two_char_score_calculator = TwoCharScoreCalculator {  };
    let name_divider_base = NameDividerBase::new(separator, normalize_name, algorithm_name);
    TwoCharNameDivider { two_char_score_calculator, name_divider_base }
}

} // verus!
