use namedivider::divided_name::{DividedName, Score, SCORE_SCALE};
use namedivider::basic_name_divider::{get_basic_name_divider, BasicNameDivider};
use namedivider::kanji::KanjiStatistics;
use namedivider::name_divider::NameDivider;

fn stat(kanji: char, order_counts: [u32; 6], length_counts: [u32; 8]) -> KanjiStatistics {
    KanjiStatistics { kanji, order_counts: order_counts.to_vec(), length_counts: length_counts.to_vec() }
}

/// The statistics that the scoring tests run on: enough counts around the
/// middle characters to make the expected split win by a clear margin.
fn test_statistics() -> Vec<KanjiStatistics> {
    vec![
        stat('菅', [0, 0, 0, 0, 0, 0], [3, 1, 0, 0, 0, 0, 0, 0]),
        stat('義', [0, 0, 1, 3, 0, 0], [0, 1, 0, 0, 0, 1, 0, 0]),
        stat('偉', [0, 0, 0, 0, 0, 0], [0, 0, 0, 0, 1, 1, 0, 0]),
    ]
}

fn divider_with(entries: Vec<KanjiStatistics>) -> BasicNameDivider {
    get_basic_name_divider(" ".to_string(), true, "kanji_feature".to_string(), false, entries)
}

/// The softmax confidence an adapter renders from the raw fixed-point
/// candidate scores.
fn softmax_confidence(raw_scores: &[i64], chosen: usize) -> f64 {
    let scale = SCORE_SCALE as f64;
    let mut sum = 0.0;
    for &raw in raw_scores {
        sum += (raw as f64 / scale).exp();
    }
    (raw_scores[chosen] as f64 / scale).exp() / sum
}

fn confidence(score: &Score) -> f64 {
    match score {
        Score::Certain => 1.0,
        Score::Softmax { raw_scores, chosen } => softmax_confidence(raw_scores, *chosen),
    }
}

#[test]
fn basic_name_divider_divide_rule_two_char() {
    let undivided_name = "原敬".to_string();
    let divider = divider_with(vec![]);
    let divided_name: DividedName = divider.divide_name(&undivided_name).unwrap();
    assert_eq!(divided_name.family, "原".to_string());
    assert_eq!(divided_name.given, "敬".to_string());
    assert_eq!(divided_name.separator, " ".to_string());
    assert!(divided_name.score.is_certain());
    assert_eq!(confidence(&divided_name.score), 1.0);
    assert_eq!(divided_name.algorithm, "rule".to_string());
}

#[test]
fn basic_name_divider_divide_rule_with_kana() {
    let undivided_name = "中山マサ".to_string();
    let divider = divider_with(vec![]);
    let divided_name = divider.divide_name(&undivided_name).unwrap();
    assert_eq!(divided_name.family, "中山".to_string());
    assert_eq!(divided_name.given, "マサ".to_string());
    assert_eq!(divided_name.separator, " ".to_string());
    assert_eq!(confidence(&divided_name.score), 1.0);
    assert_eq!(divided_name.algorithm, "rule".to_string());
}

#[test]
fn basic_name_divider_divide_with_feature() {
    let undivided_name = "菅義偉".to_string();
    let divider = divider_with(test_statistics());
    let divided_name = divider.divide_name(&undivided_name).unwrap();
    assert_eq!(divided_name.family, "菅".to_string());
    assert_eq!(divided_name.given, "義偉".to_string());
    assert_eq!(divided_name.separator, " ".to_string());
    assert_eq!(divided_name.algorithm, "kanji_feature".to_string());
    // The raw fixed-point candidate scores are exactly 2/3 and 1/3 of the
    // scale, rounded down; the first candidate wins.
    match &divided_name.score {
        Score::Certain => panic!("a same-script name must fall through to scoring"),
        Score::Softmax { raw_scores, chosen } => {
            assert_eq!(*chosen, 0);
            assert_eq!(raw_scores.as_slice(), &[2863311530, 1431655765]);
        },
    }
    // The rendered confidence is strictly between zero and one and equals
    // 1 / (1 + exp(raw1/scale - raw0/scale)) by the softmax formula.
    let score = confidence(&divided_name.score);
    assert!(0.0 < score && score < 1.0);
    let expected = 1.0 / (1.0 + (1431655765f64 / SCORE_SCALE as f64
        - 2863311530f64 / SCORE_SCALE as f64).exp());
    assert!((score - expected).abs() < 1e-12);
}

#[test]
fn basic_name_divider_scoring_is_deterministic() {
    let undivided_name = "菅義偉".to_string();
    let first = divider_with(test_statistics()).divide_name(&undivided_name).unwrap();
    let second = divider_with(test_statistics()).divide_name(&undivided_name).unwrap();
    assert_eq!(first.family, second.family);
    assert_eq!(first.given, second.given);
    assert_eq!(confidence(&first.score), confidence(&second.score));
    assert_eq!(first.algorithm, second.algorithm);
}

#[test]
fn basic_name_divider_division_is_idempotent() {
    let undivided_name = "菅義偉".to_string();
    let divider = divider_with(test_statistics());
    let first = divider.divide_name(&undivided_name).unwrap();
    let reconstructed = format!("{}{}", first.family, first.given);
    assert_eq!(reconstructed, undivided_name);
    let second = divider.divide_name(&reconstructed).unwrap();
    assert_eq!(first.family, second.family);
    assert_eq!(first.given, second.given);
}

#[test]
fn basic_name_divider_preserves_codepoint_count() {
    let names = ["原敬", "中山マサ", "菅義偉", "髙山マサ", "阿久津主税"];
    let divider = divider_with(test_statistics());
    for name in names {
        let divided = divider.divide_name(&name.to_string()).unwrap();
        assert_eq!(
            divided.family.chars().count() + divided.given.chars().count(),
            name.chars().count()
        );
        assert_eq!(format!("{}{}", divided.family, divided.given), name);
        let score = confidence(&divided.score);
        assert!(0.0 <= score && score <= 1.0);
    }
}
