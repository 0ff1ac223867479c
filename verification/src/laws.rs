use vstd::prelude::*;
use crate::basic_score_calculator::{lemma_basic_score_in_unit, BasicScoreCalculator};
use crate::divided_name::SCORE_SCALE;
use crate::han_script::is_han_char;
use crate::name_divider_base::{
    lemma_argmax_props, lemma_core_family_len, lemma_rule_scan_finds, spec_candidate_scores,
    spec_divide_core, spec_divide_model, spec_normalize, spec_rule_boundary, spec_rule_fire,
};
use crate::score_calculator::ScoreCalculator;

verus! {

/// Law: a division never loses or invents characters.  Whenever a name
/// divides, the family part concatenated with the given part is exactly
/// the undivided name — so in particular the code-point counts add up —
/// both pieces are non-empty, and the confidence data is well-formed.
pub proof fn lemma_division_preserves_name<S: ScoreCalculator>(
    separator: Seq<char>,
    normalize_name: bool,
    algorithm_name: Seq<char>,
    calc: S,
    name: Seq<char>,
)
    ensures
        match spec_divide_model(separator, normalize_name, algorithm_name, calc, name) {
            Option::Some(d) => {
                &&& d.family + d.given == name
                &&& d.family.len() + d.given.len() == name.len()
                &&& d.wf()
            },
            Option::None => name.len() < 2,
        },
{
    if name.len() >= 2 {
        let work = if normalize_name {
            spec_normalize(name)
        } else {
            name
        };
        assert(work.len() == name.len());
        lemma_core_family_len(separator, algorithm_name, calc, work);
        let core = spec_divide_core(separator, algorithm_name, calc, work);
        let k = core.family.len() as int;
        assert(name.take(k) + name.skip(k) =~= name);
        match spec_rule_boundary(work) {
            Option::Some(b) => {},
            Option::None => {
                lemma_argmax_props(spec_candidate_scores(calc, work));
            },
        }
    }
}

/// Law: dividing the reconstructed `family + given` (without separator)
/// answers exactly what dividing the original name answers, under the
/// same configuration.
pub proof fn lemma_division_idempotent<S: ScoreCalculator>(
    separator: Seq<char>,
    normalize_name: bool,
    algorithm_name: Seq<char>,
    calc: S,
    name: Seq<char>,
)
    ensures
        match spec_divide_model(separator, normalize_name, algorithm_name, calc, name) {
            Option::Some(d) => spec_divide_model(
                separator,
                normalize_name,
                algorithm_name,
                calc,
                d.family + d.given,
            ) == spec_divide_model(separator, normalize_name, algorithm_name, calc, name),
            Option::None => true,
        },
{
    lemma_division_preserves_name(separator, normalize_name, algorithm_name, calc, name);
}

/// Law: a two-character name always takes the rule path: one character
/// for each piece, with certainty, labelled as the rule's decision.
pub proof fn lemma_two_char_takes_rule_path<S: ScoreCalculator>(
    separator: Seq<char>,
    normalize_name: bool,
    algorithm_name: Seq<char>,
    calc: S,
    name: Seq<char>,
)
    ensures
        name.len() == 2 ==> ({
            let d = spec_divide_model(
                separator,
                normalize_name,
                algorithm_name,
                calc,
                name,
            )->Some_0;
            &&& spec_divide_model(separator, normalize_name, algorithm_name, calc, name) is Some
            &&& d.family == name.take(1)
            &&& d.given == name.skip(1)
            &&& d.score is Certain
            &&& d.algorithm == "rule"@
        }),
{
    if name.len() == 2 {
        let work = if normalize_name {
            spec_normalize(name)
        } else {
            name
        };
        assert(work.len() == 2);
        assert(spec_rule_boundary(work) == Option::Some(1int));
        assert(work.take(1).len() == 1);
    }
}

/// Law: a name that opens with a run of characters of one script class
/// and closes with a run of at least two characters of the opposite class
/// takes the rule path, cut exactly at the class change.  This is the
/// clean kanji-family-then-kana-given shape.
pub proof fn lemma_script_boundary_takes_rule_path(s: Seq<char>, a: int)
    ensures
        (1 <= a <= s.len() - 2 && (forall|j: int|
            0 <= j < a ==> #[trigger] is_han_char(s[j]) == is_han_char(s[0])) && (forall|j: int|
            a <= j < s.len() ==> #[trigger] is_han_char(s[j]) != is_han_char(s[0])))
            ==> spec_rule_boundary(s) == Option::Some(a),
{
    if 1 <= a <= s.len() - 2 && (forall|j: int|
        0 <= j < a ==> #[trigger] is_han_char(s[j]) == is_han_char(s[0])) && (forall|j: int|
        a <= j < s.len() ==> #[trigger] is_han_char(s[j]) != is_han_char(s[0])) {
        assert forall|j: int| 2 <= j < a + 1 implies !spec_rule_fire(s, j) by {
            if j < a {
                assert(is_han_char(s[j]) == is_han_char(s[0]));
            } else {
                assert(is_han_char(s[j - 1]) == is_han_char(s[0]));
                assert(is_han_char(s[j]) != is_han_char(s[0]));
            }
        }
        assert(spec_rule_fire(s, a + 1));
        lemma_rule_scan_finds(s, 2, a + 1);
        assert(s.len() != 2);
    }
}

/// Law: the rule path is scorer-independent.  Whenever the working string
/// has a rule boundary, two dividers that share a separator and a
/// normalization setting divide every name identically, whatever their
/// calculators and labels.
pub proof fn lemma_rule_path_scorer_independent<S1: ScoreCalculator, S2: ScoreCalculator>(
    separator: Seq<char>,
    normalize_name: bool,
    algorithm_name1: Seq<char>,
    algorithm_name2: Seq<char>,
    calc1: S1,
    calc2: S2,
    name: Seq<char>,
)
    ensures
        spec_rule_boundary(
            if normalize_name {
                spec_normalize(name)
            } else {
                name
            },
        ) is Some ==> spec_divide_model(separator, normalize_name, algorithm_name1, calc1, name)
            == spec_divide_model(separator, normalize_name, algorithm_name2, calc2, name),
{
}

/// Law: for the statistics-only calculator every raw candidate score lies
/// between zero and one in fixed-point units — together with the rule
/// path's certain score of exactly one, every confidence this engine
/// derives its output score from lies in the unit interval.  The final
/// softmax confidence `exp(raw[chosen]) / sum exp(raw[i])` of the scored
/// path lies in that interval for any raw scores, since each summand is
/// positive and the chosen one is among them.
pub proof fn lemma_basic_raw_scores_in_unit(calc: BasicScoreCalculator, name: Seq<char>)
    ensures
        (calc.wf() && 3 <= name.len()) ==> (forall|k: int|
            0 <= k < name.len() - 1 ==> 0 <= #[trigger] spec_candidate_scores(calc, name)[k]
                <= SCORE_SCALE),
{
    if calc.wf() && 3 <= name.len() {
        assert forall|k: int| 0 <= k < name.len() - 1 implies 0 <= #[trigger] spec_candidate_scores(
            calc,
            name,
        )[k] <= SCORE_SCALE by {
            assert(name.take(k + 1).len() == k + 1);
            assert(name.skip(k + 1).len() == name.len() - k - 1);
            lemma_basic_score_in_unit(
                calc.feature_extractor.kanji_statistics_repository,
                calc.only_order_score_when_4,
                name.take(k + 1),
                name.skip(k + 1),
            );
        }
    }
}

/// Law: normalization is idempotent, so a name divided with normalization
/// on cuts at the same boundary as its canonical form divided the same
/// way, while the output keeps the original, non-canonical characters.
pub proof fn lemma_normalization_round_trip<S: ScoreCalculator>(
    separator: Seq<char>,
    algorithm_name: Seq<char>,
    calc: S,
    name: Seq<char>,
)
    ensures
        spec_normalize(spec_normalize(name)) == spec_normalize(name),
        2 <= name.len() ==> ({
            let with_norm = spec_divide_model(separator, true, algorithm_name, calc, name)->Some_0;
            let direct = spec_divide_model(
                separator,
                true,
                algorithm_name,
                calc,
                spec_normalize(name),
            )->Some_0;
            &&& with_norm.family.len() == direct.family.len()
            &&& with_norm.family + with_norm.given == name
        }),
{
    assert(spec_normalize(spec_normalize(name)) =~= spec_normalize(name));
    if 2 <= name.len() {
        lemma_division_preserves_name(separator, true, algorithm_name, calc, name);
        lemma_core_family_len(separator, algorithm_name, calc, spec_normalize(name));
    }
}

} // verus!
