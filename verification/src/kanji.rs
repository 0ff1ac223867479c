use vstd::prelude::*;
use std::collections::HashMap;

verus! {

broadcast use vstd::std_specs::hash::group_hash_axioms;

/// Positional statistics of one kanji: how often it was seen in each of the
/// six order classes (family start / middle / end, given start / middle /
/// end) and in each of the eight length classes (family piece of length
/// 1 to 4-or-more, then given piece of length 1 to 4-or-more).
#[derive(Clone)]
pub struct KanjiStatistics {
    pub kanji: char,
    pub order_counts: Vec<u32>,
    pub length_counts: Vec<u32>,
}

impl KanjiStatistics {
    /// Six order counts and eight length counts.
    pub open spec fn wf(self) -> bool {
        &&& self.order_counts@.len() == 6
        &&& self.length_counts@.len() == 8
    }
}

/// The read-only per-kanji statistics table, built once from the bundled
/// counts and then only queried.
pub struct KanjiStatisticsRepository {
    kanji_dict: HashMap<u32, KanjiStatistics>,
    default_kanji: KanjiStatistics,
}

/// The table that a sequence of entries builds: each entry keyed by its
/// kanji's code point, later entries overwriting earlier ones.
pub open spec fn entries_map(entries: Seq<KanjiStatistics>) -> Map<u32, KanjiStatistics>
    decreases entries.len(),
{
    if entries.len() == 0 {
        Map::empty()
    } else {
        entries_map(entries.drop_last()).insert(entries.last().kanji as u32, entries.last())
    }
}

impl KanjiStatisticsRepository {
    /// The lookup table, keyed by code point.
    pub closed spec fn stat_map(self) -> Map<u32, KanjiStatistics> {
        self.kanji_dict@
    }

    /// The shared entry answered for characters the table does not know:
    /// all counts zero, so such a character contributes no information.
    pub closed spec fn default_stat(self) -> KanjiStatistics {
        self.default_kanji
    }

    /// Every stored entry is keyed by its own kanji and carries count
    /// vectors of the right lengths; the default entry is all zero.
    pub open spec fn wf(self) -> bool {
        &&& forall|k: u32| #[trigger]
            self.stat_map().contains_key(k) ==> self.stat_map()[k].wf()
                && self.stat_map()[k].kanji as u32 == k
        &&& self.default_stat().wf()
        &&& forall|i: int| 0 <= i < 6 ==> self.default_stat().order_counts@[i] == 0
        &&& forall|i: int| 0 <= i < 8 ==> self.default_stat().length_counts@[i] == 0
    }

    /// What a lookup answers: the entry of the key's single character, or
    /// the default entry when the key is not a single known character.
    pub open spec fn spec_get(self, key: Seq<char>) -> KanjiStatistics {
        if key.len() == 1 && self.stat_map().contains_key(key[0] as u32) {
            self.stat_map()[key[0] as u32]
        } else {
            self.default_stat()
        }
    }

    /// Builds the table from the decoded entries of the bundled statistics
    /// asset.
    pub fn new(entries: Vec<KanjiStatistics>) -> (repo: Self)
        requires
            forall|i: int| 0 <= i < entries@.len() ==> (#[trigger] entries@[i]).wf(),
        ensures
            repo.wf(),
            repo.stat_map() == entries_map(entries@),
    {
        let ghost all_entries = entries@;
        let mut entries = entries;
        let mut kanji_dict: HashMap<u32, KanjiStatistics> = HashMap::new();
        while entries.len() > 0
            invariant
                all_entries.len() >= entries@.len(),
                entries@ == all_entries.skip(all_entries.len() - entries@.len()),
                forall|i: int| 0 <= i < all_entries.len() ==> (#[trigger] all_entries[i]).wf(),
                kanji_dict@ == entries_map(
                    all_entries.take(all_entries.len() - entries@.len()),
                ),
                forall|k: u32| #[trigger]
                    kanji_dict@.contains_key(k) ==> kanji_dict@[k].wf()
                        && kanji_dict@[k].kanji as u32 == k,
            decreases entries@.len(),
        {
            let ghost done = all_entries.len() - entries@.len();
            let entry = entries.remove(0);
            proof {
                assert(entry == all_entries[done]);
                assert(entries@ == all_entries.skip(done + 1));
                let prefix = all_entries.take(done + 1);
                assert(prefix.drop_last() =~= all_entries.take(done));
                assert(prefix.last() == all_entries[done]);
            }
            kanji_dict.insert(entry.kanji as u32, entry);
        }
        proof {
            assert(all_entries.take(all_entries.len() as int) =~= all_entries);
        }
        KanjiStatisticsRepository {
            kanji_dict,
            default_kanji: KanjiStatistics {
                kanji: '\u{0}',
                order_counts: vec![0, 0, 0, 0, 0, 0],
                length_counts: vec![0, 0, 0, 0, 0, 0, 0, 0],
            },
        }
    }

    /// Answers a lookup; a key that is not one single known character gets
    /// the shared zero entry.
    pub fn get(&self, key: &String) -> (stat: &KanjiStatistics)
        ensures
            *stat == self.spec_get(key@),
    {
        if key.as_str().unicode_len() != 1 {
            return &self.default_kanji;
        }
        let c = key.as_str().get_char(0);
        let code: u32 = c as u32;
        match self.kanji_dict.get(&code) {
            Some(stat) => stat,
            None => &self.default_kanji,
        }
    }
}

} // verus!
