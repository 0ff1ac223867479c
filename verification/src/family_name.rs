use vstd::prelude::*;

verus! {

/// The ranked family-name table: a list of family names ordered from most
/// frequent to least frequent, whose rank is the position in the list.
pub struct FamilyNameRepository {
    family_names: Vec<String>,
}

impl FamilyNameRepository {
    /// The ranked names.
    pub closed spec fn names(self) -> Seq<Seq<char>> {
        self.family_names@.map_values(|s: String| s@)
    }

    /// The rank of a name: the position of its last occurrence in the
    /// ranked list, or nothing when the list does not hold it.  An absent
    /// rank is a missing, neutral feature, never a failure.
    pub open spec fn spec_rank(self, name: Seq<char>) -> Option<int>
        decreases self.names().len(),
    {
        Self::rank_in(self.names(), name)
    }

    /// The position of the last occurrence of `name` in `names`.
    pub open spec fn rank_in(names: Seq<Seq<char>>, name: Seq<char>) -> Option<int>
        decreases names.len(),
    {
        if names.len() == 0 {
            Option::None
        } else if names.last() == name {
            Option::Some(names.len() - 1)
        } else {
            Self::rank_in(names.drop_last(), name)
        }
    }

    /// Builds the table from the lines of the bundled ranked list.
    pub fn new(family_names: Vec<String>) -> (repo: Self)
        ensures
            repo.names() == family_names@.map_values(|s: String| s@),
    {
        FamilyNameRepository { family_names }
    }

    /// Answers the rank of a family name, or nothing for an unknown name.
    pub fn get_rank(&self, family: &String) -> (rank: Option<u64>)
        ensures
            match rank {
                Option::Some(r) => self.spec_rank(family@) == Option::Some(r as int),
                Option::None => self.spec_rank(family@) is None,
            },
    {
        let mut idx: usize = self.family_names.len();
        proof {
            assert(self.names().take(idx as int) =~= self.names());
        }
        while idx > 0
            invariant
                idx <= self.family_names@.len(),
                Self::rank_in(self.names(), family@) == Self::rank_in(
                    self.names().take(idx as int),
                    family@,
                ),
            decreases idx,
        {
            idx = idx - 1;
            proof {
                assert(self.names()[idx as int] == self.family_names@[idx as int]@);
                assert(self.names().take(idx + 1).drop_last() =~= self.names().take(idx as int));
                assert(self.names().take(idx + 1).last() == self.names()[idx as int]);
            }
            if self.family_names[idx].eq(family) {
                return Option::Some(idx as u64);
            }
        }
        proof {
            assert(self.names().take(0) =~= Seq::<Seq<char>>::empty());
        }
        Option::None
    }
}

} // verus!
