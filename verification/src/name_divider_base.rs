use vstd::prelude::*;
use crate::divided_name::{DividedName, DividedNameModel, NameDividerError, Score, ScoreModel};
use crate::han_script::{is_han_char, HanMatcher};
use crate::score_calculator::ScoreCalculator;

verus! {

/// The canonical form of one character: each legacy glyph variant maps to
/// its modern form, every other character to itself.  One character maps
/// to exactly one character, so normalization preserves the code-point
/// count by construction.
pub open spec fn spec_normalize_char(c: char) -> char {
    if c == '髙' {
        '高'
    } else if c == '𠮷' {
        '吉'
    } else {
        c
    }
}

/// The canonical form of a whole name.
pub open spec fn spec_normalize(s: Seq<char>) -> Seq<char> {
    s.map_values(|c: char| spec_normalize_char(c))
}

/// Whether the script-boundary test fires at position `i`: the character's
/// Han-script class differs from the first character's and agrees with its
/// predecessor's, confirming a stable two-character run of the opposite
/// class.
pub open spec fn spec_rule_fire(s: Seq<char>, i: int) -> bool {
    is_han_char(s[0]) != is_han_char(s[i]) && is_han_char(s[i - 1]) == is_han_char(s[i])
}

/// The family length from the first position at or after `i` where the
/// boundary test fires: the cut falls one character before the fire.
pub open spec fn spec_rule_boundary_from(s: Seq<char>, i: int) -> Option<int>
    decreases s.len() - i,
{
    if i < 2 || i >= s.len() {
        Option::None
    } else if spec_rule_fire(s, i) {
        Option::Some(i - 1)
    } else {
        spec_rule_boundary_from(s, i + 1)
    }
}

/// The family length the rule-based path chooses, if any: a two-character
/// name always splits one and one; otherwise the first stable script
/// boundary decides.
pub open spec fn spec_rule_boundary(s: Seq<char>) -> Option<int> {
    if s.len() == 2 {
        Option::Some(1)
    } else {
        spec_rule_boundary_from(s, 2)
    }
}

/// A chosen rule boundary always cuts two non-empty pieces.
pub proof fn lemma_rule_boundary_range(s: Seq<char>)
    requires
        spec_rule_boundary(s) is Some,
        2 <= s.len(),
    ensures
        1 <= spec_rule_boundary(s)->Some_0 <= s.len() - 1,
{
    if s.len() != 2 {
        lemma_rule_boundary_from_range(s, 2);
    }
}

proof fn lemma_rule_boundary_from_range(s: Seq<char>, i: int)
    requires
        2 <= i,
        spec_rule_boundary_from(s, i) is Some,
    ensures
        i - 1 <= spec_rule_boundary_from(s, i)->Some_0 <= s.len() - 2,
    decreases s.len() - i,
{
    if i < s.len() && !spec_rule_fire(s, i) {
        lemma_rule_boundary_from_range(s, i + 1);
    }
}

/// A left-to-right scan that saw no fire before `hi` and a fire at `hi`
/// has found the rule boundary.
pub proof fn lemma_rule_scan_finds(s: Seq<char>, lo: int, hi: int)
    requires
        2 <= lo <= hi < s.len(),
        forall|j: int| lo <= j < hi ==> !spec_rule_fire(s, j),
        spec_rule_fire(s, hi),
    ensures
        spec_rule_boundary_from(s, lo) == Option::Some(hi - 1),
    decreases hi - lo,
{
    if lo < hi {
        lemma_rule_scan_finds(s, lo + 1, hi);
    }
}

/// A scan that saw no fire anywhere finds no rule boundary.
proof fn lemma_rule_scan_none(s: Seq<char>, lo: int)
    requires
        2 <= lo,
        forall|j: int| lo <= j < s.len() ==> !spec_rule_fire(s, j),
    ensures
        spec_rule_boundary_from(s, lo) is None,
    decreases s.len() - lo,
{
    if lo < s.len() {
        lemma_rule_scan_none(s, lo + 1);
    }
}

/// The raw score of every candidate split of a name: index `k` holds the
/// calculator's score for cutting after `k + 1` characters.
pub open spec fn spec_candidate_scores<S: ScoreCalculator>(calc: S, name: Seq<char>) -> Seq<int> {
    Seq::new((name.len() - 1) as nat, |k: int| calc.spec_score(name.take(k + 1), name.skip(k + 1)))
}

/// The first index of the maximum of a sequence of scores.
pub open spec fn spec_argmax(s: Seq<int>) -> int
    decreases s.len(),
{
    if s.len() <= 1 {
        0
    } else {
        let rest = spec_argmax(s.drop_last());
        if s.last() > s[rest] {
            s.len() - 1
        } else {
            rest
        }
    }
}

/// The argmax is in range, attains the maximum, and is the first index to
/// do so.
pub proof fn lemma_argmax_props(s: Seq<int>)
    requires
        1 <= s.len(),
    ensures
        0 <= spec_argmax(s) < s.len(),
        forall|i: int| 0 <= i < s.len() ==> #[trigger] s[i] <= s[spec_argmax(s)],
        forall|i: int| 0 <= i < spec_argmax(s) ==> #[trigger] s[i] < s[spec_argmax(s)],
    decreases s.len(),
{
    if s.len() > 1 {
        lemma_argmax_props(s.drop_last());
        assert(forall|i: int| 0 <= i < s.len() - 1 ==> s.drop_last()[i] == s[i]);
    }
}

/// What dividing the working string answers, before any mapping back onto
/// the original string: the rule path's certain cut when a boundary
/// exists, otherwise the softmax-selected best-scoring cut.
pub open spec fn spec_divide_core<S: ScoreCalculator>(
    separator: Seq<char>,
    algorithm_name: Seq<char>,
    calc: S,
    work: Seq<char>,
) -> DividedNameModel {
    match spec_rule_boundary(work) {
        Option::Some(b) => DividedNameModel {
            family: work.take(b),
            given: work.skip(b),
            separator,
            score: ScoreModel::Certain,
            algorithm: "rule"@,
        },
        Option::None => {
            let scores = spec_candidate_scores(calc, work);
            let k = spec_argmax(scores);
            DividedNameModel {
                family: work.take(k + 1),
                given: work.skip(k + 1),
                separator,
                score: ScoreModel::Softmax { raw_scores: scores, chosen: k },
                algorithm: algorithm_name,
            }
        },
    }
}

/// What a whole division answers: nothing for a name of fewer than two
/// code points; otherwise the core division of the working string — the
/// normalized name when normalization is on — with the same cut reapplied
/// to the original string.
pub open spec fn spec_divide_model<S: ScoreCalculator>(
    separator: Seq<char>,
    normalize_name: bool,
    algorithm_name: Seq<char>,
    calc: S,
    name: Seq<char>,
) -> Option<DividedNameModel> {
    if name.len() < 2 {
        Option::None
    } else {
        let work = if normalize_name {
            spec_normalize(name)
        } else {
            name
        };
        let core = spec_divide_core(separator, algorithm_name, calc, work);
        Option::Some(
            DividedNameModel {
                family: name.take(core.family.len() as int),
                given: name.skip(core.family.len() as int),
                separator: core.separator,
                score: core.score,
                algorithm: core.algorithm,
            },
        )
    }
}

/// Splits a name at `idx` code points; an index beyond the end leaves the
/// whole name in the first piece.
fn slice(undivided_name: &String, idx: usize) -> (pieces: (String, String))
    ensures
        ({
            let cut = if idx as int <= undivided_name@.len() {
                idx as int
            } else {
                undivided_name@.len() as int
            };
            &&& pieces.0@ == undivided_name@.take(cut)
            &&& pieces.1@ == undivided_name@.skip(cut)
        }),
{
    let len = undivided_name.as_str().unicode_len();
    let cut = if idx <= len {
        idx
    } else {
        len
    };
    let family = undivided_name.as_str().substring_char(0, cut).to_owned();
    let given = undivided_name.as_str().substring_char(cut, len).to_owned();
    proof {
        assert(undivided_name@.subrange(0, cut as int) =~= undivided_name@.take(cut as int));
        assert(undivided_name@.subrange(cut as int, undivided_name@.len() as int)
            =~= undivided_name@.skip(cut as int));
    }
    (family, given)
}

/// Holds a name next to its normalized form, so that a cut found on the
/// normalized form can be reapplied to the original.
pub struct UndividedNameHolder {
    pub original_name: String,
    pub normalized_name: String,
}

impl UndividedNameHolder {
    /// Normalizes the name character by character.
    pub fn new(original_name: String) -> (holder: Self)
        ensures
            holder.original_name@ == original_name@,
            holder.normalized_name@ == spec_normalize(original_name@),
    {
        let len = original_name.as_str().unicode_len();
        let mut normalized_name = String::new();
        let mut i: usize = 0;
        while i < len
            invariant
                len == original_name@.len(),
                i <= len,
                normalized_name@ == spec_normalize(original_name@.take(i as int)),
            decreases len - i,
        {
            let c = original_name.as_str().get_char(i);
            if c == '髙' {
                normalized_name.append("高");
                proof {
                    reveal_strlit("高");
                    assert("高"@ =~= seq!['高']);
                }
            } else if c == '𠮷' {
                normalized_name.append("吉");
                proof {
                    reveal_strlit("吉");
                    assert("吉"@ =~= seq!['吉']);
                }
            } else {
                normalized_name.append(original_name.as_str().substring_char(i, i + 1));
            }
            proof {
                assert(spec_normalize(original_name@.take(i + 1)) =~= spec_normalize(
                    original_name@.take(i as int),
                ).push(spec_normalize_char(original_name@[i as int])));
            }
            i = i + 1;
        }
        proof {
            assert(original_name@.take(len as int) =~= original_name@);
        }
        UndividedNameHolder { original_name, normalized_name }
    }

    /// Reapplies the cut of a division of the normalized name to the
    /// original name, keeping the separator, score and algorithm.
    pub fn get_divided_original_name(&self, divided_normalized_name: DividedName) -> (divided:
        DividedName)
        ensures
            ({
                let cut0 = divided_normalized_name.family@.len() as int;
                let cut = if cut0 <= self.original_name@.len() {
                    cut0
                } else {
                    self.original_name@.len() as int
                };
                &&& divided.family@ == self.original_name@.take(cut)
                &&& divided.given@ == self.original_name@.skip(cut)
                &&& divided.separator == divided_normalized_name.separator
                &&& divided.score == divided_normalized_name.score
                &&& divided.algorithm == divided_normalized_name.algorithm
            }),
    {
        let family_length = divided_normalized_name.family.as_str().unicode_len();
        let (family, given) = slice(&self.original_name, family_length);
        DividedName {
            family,
            given,
            separator: divided_normalized_name.separator,
            score: divided_normalized_name.score,
            algorithm: divided_normalized_name.algorithm,
        }
    }
}

/// The shared orchestration of every divider: validation, optional
/// normalization, the rule-based shortcut, and the scored fallback.
pub struct NameDividerBase {
    pub separator: String,
    pub normalize_name: bool,
    pub algorithm_name: String,
    pub han_matcher: HanMatcher,
}

impl NameDividerBase {
    /// What dividing a name with this configuration and the given
    /// calculator answers.
    pub open spec fn spec_divide<S: ScoreCalculator>(self, calc: S, name: Seq<char>) -> Option<
        DividedNameModel,
    > {
        spec_divide_model(self.separator@, self.normalize_name, self.algorithm_name@, calc, name)
    }

    pub fn new(separator: String, normalize_name: bool, algorithm_name: String) -> (base: Self)
        ensures
            base.separator == separator,
            base.normalize_name == normalize_name,
            base.algorithm_name == algorithm_name,
    {
        NameDividerBase {
            separator,
            normalize_name,
            algorithm_name,
            han_matcher: HanMatcher::new(),
        }
    }

    /// Assembles a division with this configuration's separator.
    fn create_divided_name(&self, family: String, given: String, score: Score, algorithm: String)
        -> (divided: DividedName)
        ensures
            divided.family == family,
            divided.given == given,
            divided.separator == self.separator,
            divided.score == score,
            divided.algorithm == algorithm,
    {
        DividedName {
            family,
            given,
            separator: self.separator.clone(),
            score,
            algorithm,
        }
    }

    /// Accepts exactly the names of at least two code points.
    pub fn validate(&self, undivided_name: &String) -> (result: Result<(), &'static str>)
        ensures
            result is Ok <==> undivided_name@.len() >= 2,
            result matches Result::Err(e) ==> e@ == "Name length needs at least 2 chars."@,
    {
        if undivided_name.as_str().unicode_len() < 2 {
            return Result::Err("Name length needs at least 2 chars.");
        }
        Result::Ok(())
    }

    /// The rule-based shortcut: a two-character name splits one and one,
    /// and a clean script boundary cuts with certainty; both bypass the
    /// scorers.
    pub fn divide_by_rule_base(&self, undivided_name: &String) -> (result: Option<DividedName>)
        requires
            2 <= undivided_name@.len(),
        ensures
            result is Some <==> spec_rule_boundary(undivided_name@) is Some,
            match result {
                Option::Some(d) => {
                    let b = spec_rule_boundary(undivided_name@)->Some_0;
                    &&& d.family@ == undivided_name@.take(b)
                    &&& d.given@ == undivided_name@.skip(b)
                    &&& d.separator == self.separator
                    &&& d.score is Certain
                    &&& d.algorithm@ == "rule"@
                },
                Option::None => true,
            },
    {
        let fullname_length = undivided_name.as_str().unicode_len();
        if fullname_length == 2 {
            let family = undivided_name.as_str().substring_char(0, 1).to_owned();
            let given = undivided_name.as_str().substring_char(1, 2).to_owned();
            proof {
                assert(undivided_name@.subrange(0, 1) =~= undivided_name@.take(1));
                assert(undivided_name@.subrange(1, 2) =~= undivided_name@.skip(1));
            }
            return Option::Some(
                self.create_divided_name(family, given, Score::Certain, "rule".to_owned()),
            );
        }
        let mut is_kanji_list: Vec<bool> = Vec::new();
        let mut i: usize = 0;
        while i < fullname_length
            invariant
                fullname_length == undivided_name@.len(),
                3 <= fullname_length,
                i <= fullname_length,
                is_kanji_list@.len() == i,
                forall|j: int|
                    0 <= j < i ==> is_kanji_list@[j] == is_han_char(undivided_name@[j]),
                forall|j: int| 2 <= j < i ==> !spec_rule_fire(undivided_name@, j),
            decreases fullname_length - i,
        {
            let c = undivided_name.as_str().get_char(i);
            let is_kanji = self.han_matcher.is_han(c);
            is_kanji_list.push(is_kanji);
            if i >= 2 && is_kanji_list[0] != is_kanji && is_kanji_list[is_kanji_list.len()
                - 2] == is_kanji {
                proof {
                    assert(spec_rule_fire(undivided_name@, i as int));
                    lemma_rule_scan_finds(undivided_name@, 2, i as int);
                }
                let (family, given) = slice(undivided_name, i - 1);
                return Option::Some(
                    self.create_divided_name(family, given, Score::Certain, "rule".to_owned()),
                );
            }
            i = i + 1;
        }
        proof {
            lemma_rule_scan_none(undivided_name@, 2);
        }
        Option::None
    }

    /// Selects the best of the already-computed raw candidate scores —
    /// one per split index, left to right — and builds the division it
    /// stands for.  The first index that attains the maximum wins.  This
    /// is the scored path with the calculator factored out, for adapters
    /// whose scoring backend cannot run inside the engine.
    pub fn divide_by_scores(&self, undivided_name: &String, scores: Vec<i64>) -> (divided:
        DividedName)
        requires
            1 <= scores@.len(),
            scores@.len() + 1 == undivided_name@.len(),
        ensures
            ({
                let sscores = scores@.map_values(|x: i64| x as int);
                let k = spec_argmax(sscores);
                &&& divided.family@ == undivided_name@.take(k + 1)
                &&& divided.given@ == undivided_name@.skip(k + 1)
                &&& divided.separator == self.separator
                &&& divided.score@ == (ScoreModel::Softmax { raw_scores: sscores, chosen: k })
                &&& divided.algorithm == self.algorithm_name
            }),
    {
        let ghost sscores = scores@.map_values(|x: i64| x as int);
        let mut max_idx: usize = 0;
        let mut i: usize = 1;
        proof {
            lemma_argmax_props(sscores);
            assert(sscores.take(1).len() == 1);
        }
        while i < scores.len()
            invariant
                sscores == scores@.map_values(|x: i64| x as int),
                1 <= scores@.len(),
                max_idx < i <= scores@.len(),
                max_idx as int == spec_argmax(sscores.take(i as int)),
            decreases scores@.len() - i,
        {
            proof {
                assert(sscores.take(i + 1).drop_last() =~= sscores.take(i as int));
                assert(sscores.take(i + 1).last() == sscores[i as int]);
                lemma_argmax_props(sscores.take(i as int));
            }
            if scores[max_idx] < scores[i] {
                max_idx = i;
            }
            i = i + 1;
        }
        proof {
            assert(sscores.take(scores@.len() as int) =~= sscores);
        }
        let (pred_family, pred_given) = slice(undivided_name, max_idx + 1);
        self.create_divided_name(
            pred_family,
            pred_given,
            Score::Softmax { raw_scores: scores, chosen: max_idx },
            self.algorithm_name.clone(),
        )
    }

    /// The scored path: computes every candidate's raw score with the
    /// calculator, then selects the best.
    fn divide_by_algorithm<S: ScoreCalculator>(
        &self,
        undivided_name: &String,
        score_calculator: &S,
    ) -> (divided: DividedName)
        requires
            score_calculator.wf(),
            3 <= undivided_name@.len(),
        ensures
            ({
                let sscores = spec_candidate_scores(*score_calculator, undivided_name@);
                let k = spec_argmax(sscores);
                &&& divided.family@ == undivided_name@.take(k + 1)
                &&& divided.given@ == undivided_name@.skip(k + 1)
                &&& divided.separator == self.separator
                &&& divided.score@ == (ScoreModel::Softmax { raw_scores: sscores, chosen: k })
                &&& divided.algorithm == self.algorithm_name
            }),
    {
        let ghost sscores = spec_candidate_scores(*score_calculator, undivided_name@);
        let fullname_length = undivided_name.as_str().unicode_len();
        let mut scores: Vec<i64> = Vec::new();
        let mut idx: usize = 1;
        while idx < fullname_length
            invariant
                score_calculator.wf(),
                sscores == spec_candidate_scores(*score_calculator, undivided_name@),
                fullname_length == undivided_name@.len(),
                3 <= fullname_length,
                1 <= idx <= fullname_length,
                scores@.len() == idx - 1,
                forall|j: int| 0 <= j < idx - 1 ==> scores@[j] as int == sscores[j],
            decreases fullname_length - idx,
        {
            let (family, given) = slice(undivided_name, idx);
            let score = score_calculator.calc_score(&family, &given);
            scores.push(score);
            idx = idx + 1;
        }
        proof {
            assert(scores@.map_values(|x: i64| x as int) =~= sscores);
        }
        self.divide_by_scores(undivided_name, scores)
    }

    /// Divides a validated working string: the rule-based shortcut when it
    /// applies, the scored path otherwise.
    fn _divide_name<S: ScoreCalculator>(
        &self,
        undivided_name: &String,
        score_calculator: &S,
    ) -> (divided: DividedName)
        requires
            score_calculator.wf(),
            2 <= undivided_name@.len(),
        ensures
            divided@ == spec_divide_core(
                self.separator@,
                self.algorithm_name@,
                *score_calculator,
                undivided_name@,
            ),
    {
        let divided_name_by_rule_base = self.divide_by_rule_base(undivided_name);
        match divided_name_by_rule_base {
            Option::Some(divided) => divided,
            Option::None => self.divide_by_algorithm(undivided_name, score_calculator),
        }
    }

    /// Divides an undivided name: rejects a name of fewer than two code
    /// points, normalizes when configured to, finds the cut, and maps it
    /// back onto the original string.
    pub fn divide_name<S: ScoreCalculator>(
        &self,
        undivided_name: &String,
        score_calculator: &S,
    ) -> (result: Result<DividedName, NameDividerError>)
        requires
            score_calculator.wf(),
        ensures
            result is Ok <==> 2 <= undivided_name@.len(),
            match result {
                Result::Ok(divided) => self.spec_divide(*score_calculator, undivided_name@)
                    == Option::Some(divided@) && divided.wf(),
                Result::Err(e) => e == NameDividerError::InvalidInput,
            },
    {
        proof {
            crate::laws::lemma_division_preserves_name(
                self.separator@,
                self.normalize_name,
                self.algorithm_name@,
                *score_calculator,
                undivided_name@,
            );
        }
        match self.validate(undivided_name) {
            Result::Err(_) => {
                return Result::Err(NameDividerError::InvalidInput);
            },
            Result::Ok(_) => {},
        }
        if self.normalize_name {
            let holder = UndividedNameHolder::new(undivided_name.clone());
            proof {
                assert(holder.normalized_name@.len() == undivided_name@.len());
            }
            let divided_name = self._divide_name(&holder.normalized_name, score_calculator);
            let result = holder.get_divided_original_name(divided_name);
            proof {
                lemma_core_family_len(
                    self.separator@,
                    self.algorithm_name@,
                    *score_calculator,
                    holder.normalized_name@,
                );
            }
            Result::Ok(result)
        } else {
            let divided = self._divide_name(undivided_name, score_calculator);
            proof {
                lemma_core_family_len(
                    self.separator@,
                    self.algorithm_name@,
                    *score_calculator,
                    undivided_name@,
                );
                let core = spec_divide_core(
                    self.separator@,
                    self.algorithm_name@,
                    *score_calculator,
                    undivided_name@,
                );
                assert(undivided_name@.take(core.family.len() as int) =~= core.family);
                assert(undivided_name@.skip(core.family.len() as int) =~= core.given);
            }
            Result::Ok(divided)
        }
    }
}

/// The core division cuts two non-empty pieces of the working string.
pub proof fn lemma_core_family_len<S: ScoreCalculator>(
    separator: Seq<char>,
    algorithm_name: Seq<char>,
    calc: S,
    work: Seq<char>,
)
    requires
        2 <= work.len(),
    ensures
        ({
            let core = spec_divide_core(separator, algorithm_name, calc, work);
            &&& 1 <= core.family.len() <= work.len() - 1
            &&& core.family == work.take(core.family.len() as int)
            &&& core.given == work.skip(core.family.len() as int)
        }),
{
    match spec_rule_boundary(work) {
        Option::Some(b) => {
            lemma_rule_boundary_range(work);
        },
        Option::None => {
            let scores = spec_candidate_scores(calc, work);
            lemma_argmax_props(scores);
        },
    }
}

} // verus!
