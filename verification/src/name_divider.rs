use vstd::prelude::*;
use crate::divided_name::{DividedName, DividedNameModel, NameDividerError};

verus! {

/// A divider of undivided names.  Every divider is a pure function of its
/// configuration and its input: what it answers is fixed by its own
/// mathematical division function, it accepts exactly the names of at
/// least two code points, and it fails with `InvalidInput` on the rest,
/// producing no partial result.
pub trait NameDivider {
    /// When the divider is ready to divide.
    spec fn wf(&self) -> bool;

    /// What dividing a name answers: nothing for an invalid name,
    /// otherwise the one division this divider produces for it.
    spec fn spec_divide(&self, name: Seq<char>) -> Option<DividedNameModel>;

    /// Divides an undivided name.
    fn divide_name(&self, undivided_name: &String) -> (result: Result<
        DividedName,
        NameDividerError,
    >)
        requires
            self.wf(),
        ensures
            result is Ok <==> 2 <= undivided_name@.len(),
            match result {
                Result::Ok(divided) => self.spec_divide(undivided_name@) == Option::Some(divided@)
                    && divided.wf(),
                Result::Err(e) => e == NameDividerError::InvalidInput,
            },
    ;
}

} // verus!
