use namedivider::basic_name_divider::get_basic_name_divider;
use namedivider::divided_name::{NameDividerError, Score};
use namedivider::extractor::{FamilyRankingFeatureExtractor, SimpleFeatureExtractor};
use namedivider::family_name::FamilyNameRepository;
use namedivider::kanji::{KanjiStatistics, KanjiStatisticsRepository};
use namedivider::name_divider::NameDivider;
use namedivider::name_divider_base::{NameDividerBase, UndividedNameHolder};
use namedivider::score_calculator::ScoreCalculator;
use namedivider::two_char_name_divider::get_two_char_name_divider;
use namedivider::two_char_score_calculator::TwoCharScoreCalculator;

const SCALE: i64 = 4294967296;

fn stat(kanji: char, order_counts: [u32; 6], length_counts: [u32; 8]) -> KanjiStatistics {
    KanjiStatistics { kanji, order_counts: order_counts.to_vec(), length_counts: length_counts.to_vec() }
}

#[test]
fn short_names_fail_with_invalid_input() {
    let divider = get_basic_name_divider(" ".to_string(), true, "kanji_feature".to_string(), false, vec![]);
    let empty = divider.divide_name(&"".to_string());
    assert_eq!(empty.unwrap_err(), NameDividerError::InvalidInput);
    let single = divider.divide_name(&"原".to_string());
    assert_eq!(single.unwrap_err(), NameDividerError::InvalidInput);
    assert_eq!(
        NameDividerError::InvalidInput.message(),
        "Name length needs at least 2 chars."
    );
}

#[test]
fn validation_matches_the_two_codepoint_floor() {
    let base = NameDividerBase::new(" ".to_string(), true, "x".to_string());
    assert_eq!(base.validate(&"原敬".to_string()), Ok(()));
    assert_eq!(base.validate(&"原".to_string()), Err("Name length needs at least 2 chars."));
}

#[test]
fn normalization_maps_legacy_glyphs_one_to_one() {
    let holder = UndividedNameHolder::new("髙𠮷山".to_string());
    assert_eq!(holder.original_name, "髙𠮷山");
    assert_eq!(holder.normalized_name, "高吉山");
    assert_eq!(
        holder.original_name.chars().count(),
        holder.normalized_name.chars().count()
    );
}

#[test]
fn normalization_round_trip_on_rule_path() {
    // 髙山マサ normalizes to 高山マサ, takes the rule path, and the output
    // carries the original legacy character at its position.
    let divider = get_basic_name_divider(" ".to_string(), true, "kanji_feature".to_string(), false, vec![]);
    let divided = divider.divide_name(&"髙山マサ".to_string()).unwrap();
    assert_eq!(divided.family, "髙山");
    assert_eq!(divided.given, "マサ");
    assert_eq!(divided.algorithm, "rule");
    // The canonical form divides at the same boundary.
    let canonical = divider.divide_name(&"高山マサ".to_string()).unwrap();
    assert_eq!(canonical.family.chars().count(), divided.family.chars().count());
}

#[test]
fn normalization_round_trip_on_scored_path() {
    // 𠮷田太 is scored on its canonical form 吉田太; the middle character's
    // counts put the cut after one character, and the output keeps 𠮷.
    let entries = vec![stat('田', [0, 0, 1, 3, 0, 0], [0; 8])];
    let divider = get_basic_name_divider(" ".to_string(), true, "kanji_feature".to_string(), false, entries.clone());
    let divided = divider.divide_name(&"𠮷田太".to_string()).unwrap();
    assert_eq!(divided.family, "𠮷");
    assert_eq!(divided.given, "田太");
    assert_eq!(divided.algorithm, "kanji_feature");
    let canonical = divider.divide_name(&"吉田太".to_string()).unwrap();
    assert_eq!(canonical.family, "吉");
    assert_eq!(canonical.family.chars().count(), divided.family.chars().count());
}

#[test]
fn divide_by_scores_picks_first_maximum() {
    let base = NameDividerBase::new(" ".to_string(), true, "gbdt".to_string());
    let divided = base.divide_by_scores(&"中山太".to_string(), vec![5 * SCALE, 9 * SCALE]);
    assert_eq!(divided.family, "中山");
    assert_eq!(divided.given, "太");
    assert_eq!(divided.algorithm, "gbdt");
    match divided.score {
        Score::Softmax { raw_scores, chosen } => {
            assert_eq!(chosen, 1);
            assert_eq!(raw_scores, vec![5 * SCALE, 9 * SCALE]);
        },
        Score::Certain => panic!("scores were handed in, so the result is scored"),
    }
    // A tie goes to the leftmost candidate.
    let tied = base.divide_by_scores(&"中山太".to_string(), vec![7, 7]);
    assert_eq!(tied.family, "中");
    // Negative raw scores are ordered like their real values.
    let negative = base.divide_by_scores(&"中山太".to_string(), vec![-3 * SCALE, -2 * SCALE]);
    assert_eq!(negative.family, "中山");
}

#[test]
fn rule_path_is_scorer_independent() {
    // On rule-path names the basic divider and the two-character divider
    // agree in full, labels included.
    let basic = get_basic_name_divider(" ".to_string(), true, "kanji_feature".to_string(), false, vec![]);
    let two_char = get_two_char_name_divider(" ".to_string(), true, "two_char".to_string());
    for name in ["原敬", "中山マサ", "髙山マサ"] {
        let a = basic.divide_name(&name.to_string()).unwrap();
        let b = two_char.divide_name(&name.to_string()).unwrap();
        assert_eq!(a.family, b.family);
        assert_eq!(a.given, b.given);
        assert_eq!(a.algorithm, "rule");
        assert_eq!(b.algorithm, "rule");
        assert!(matches!(a.score, Score::Certain));
        assert!(matches!(b.score, Score::Certain));
    }
}

#[test]
fn two_char_calculator_prefers_two_character_family() {
    let calc = TwoCharScoreCalculator {};
    assert_eq!(calc.calc_score(&"中山".to_string(), &"太".to_string()), SCALE);
    assert_eq!(calc.calc_score(&"中".to_string(), &"山太".to_string()), 0);
}

#[test]
fn two_char_divider_cuts_after_two_characters() {
    let divider = get_two_char_name_divider(" ".to_string(), true, "two_char".to_string());
    // All-kanji, so no rule boundary: the calculator decides.
    let divided = divider.divide_name(&"阿久津主税".to_string()).unwrap();
    assert_eq!(divided.family, "阿久");
    assert_eq!(divided.given, "津主税");
    assert_eq!(divided.algorithm, "two_char");
}

#[test]
fn basic_calculator_four_char_shortcut() {
    let entries = vec![
        stat('田', [0, 2, 2, 0, 0, 0], [0; 8]),
        stat('太', [0, 0, 1, 1, 2, 0], [0; 8]),
    ];
    let with_shortcut = get_basic_name_divider(" ".to_string(), true, "kanji_feature".to_string(), true, entries.clone());
    let family = "山田".to_string();
    let given = "太郎".to_string();
    // Order mean alone: (1/2 + 1/4) / 2 of the scale.
    assert_eq!(
        with_shortcut.basic_score_calculator.calc_score(&family, &given),
        3 * SCALE / 8
    );
    // Without the shortcut the zero length mean is blended in.
    let without_shortcut = get_basic_name_divider(" ".to_string(), true, "kanji_feature".to_string(), false, entries);
    assert_eq!(
        without_shortcut.basic_score_calculator.calc_score(&family, &given),
        3 * SCALE / 16
    );
}

#[test]
fn simple_features_carry_both_pieces_scores() {
    let repo = KanjiStatisticsRepository::new(vec![
        stat('義', [0, 0, 1, 3, 0, 0], [0, 1, 0, 0, 0, 1, 0, 0]),
        stat('偉', [0; 6], [0, 0, 0, 0, 1, 1, 0, 0]),
    ]);
    let extractor = SimpleFeatureExtractor { kanji_statistics_repository: repo };
    let features = extractor.get_features(&"菅".to_string(), &"義偉".to_string());
    assert_eq!(features.family_order_score, 0);
    assert_eq!(features.family_length_score, 0);
    assert_eq!(features.given_order_score, 3 * (SCALE as u128) / 4);
    assert_eq!(features.given_length_score, SCALE as u128);
}

#[test]
fn ranking_features_hold_rank_lengths_and_marker() {
    let kanji_statistics_repository = KanjiStatisticsRepository::new(vec![]);
    let family_name_repository = FamilyNameRepository::new(vec![
        "中山".to_string(),
        "菅".to_string(),
    ]);
    let extractor = FamilyRankingFeatureExtractor {
        kanji_statistics_repository,
        family_name_repository,
    };
    let features = extractor.get_features(&"菅".to_string(), &"田村正".to_string());
    assert_eq!(features.rank, Some(1));
    assert_eq!(features.fullname_length, 4);
    assert_eq!(features.family_length, 1);
    assert_eq!(features.given_length, 3);
    // 田 is one of the ten marker kanji.
    assert!(features.given_startswith_specific_kanji);
    let unknown = extractor.get_features(&"梅津".to_string(), &"正".to_string());
    assert_eq!(unknown.rank, None);
    assert!(!unknown.given_startswith_specific_kanji);
}

#[test]
fn rule_path_is_reachable_for_adapters() {
    // An adapter that scores outside the engine still runs the verified
    // rule check first, on the normalized string.
    let base = NameDividerBase::new(" ".to_string(), true, "gbdt".to_string());
    let holder = UndividedNameHolder::new("中山マサ".to_string());
    let ruled = base.divide_by_rule_base(&holder.normalized_name).expect("a script boundary exists");
    let divided = holder.get_divided_original_name(ruled);
    assert_eq!(divided.family, "中山");
    assert_eq!(divided.given, "マサ");
    assert_eq!(divided.algorithm, "rule");
    // An all-kanji name has no script boundary.
    assert!(base.divide_by_rule_base(&"菅義偉".to_string()).is_none());
}

#[test]
fn disabling_normalization_divides_the_raw_string() {
    let divider = get_basic_name_divider(" ".to_string(), false, "kanji_feature".to_string(), false, vec![]);
    let divided = divider.divide_name(&"髙山マサ".to_string()).unwrap();
    assert_eq!(divided.family, "髙山");
    assert_eq!(divided.given, "マサ");
    assert_eq!(divided.algorithm, "rule");
}

#[test]
fn reapplied_cut_keeps_original_characters() {
    let holder = UndividedNameHolder::new("髙山太".to_string());
    let base = NameDividerBase::new("/".to_string(), false, "x".to_string());
    let normalized_divided = base.divide_by_scores(&holder.normalized_name, vec![3, 1]);
    assert_eq!(normalized_divided.family, "高");
    let divided = holder.get_divided_original_name(normalized_divided);
    assert_eq!(divided.family, "髙");
    assert_eq!(divided.given, "山太");
    assert_eq!(divided.separator, "/");
}
