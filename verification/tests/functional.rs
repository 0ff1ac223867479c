use namedivider::functional::{
    calc_current_length_status, calc_current_order_status, calc_length_score, calc_order_score,
    create_length_mask, create_order_mask,
};
use namedivider::kanji::{KanjiStatistics, KanjiStatisticsRepository};

fn stat(kanji: char, order_counts: [u32; 6], length_counts: [u32; 8]) -> KanjiStatistics {
    KanjiStatistics { kanji, order_counts: order_counts.to_vec(), length_counts: length_counts.to_vec() }
}

const SCALE: u128 = 4294967296;

#[test]
fn order_mask_rejects_first_and_last() {
    assert_eq!(
        create_order_mask(5, 0),
        Err("First character and last character must not be created order mask.")
    );
    assert_eq!(
        create_order_mask(5, 4),
        Err("First character and last character must not be created order mask.")
    );
}

#[test]
fn order_mask_interior_positions() {
    assert_eq!(create_order_mask(3, 1).unwrap(), vec![false, false, true, true, false, false]);
    assert_eq!(create_order_mask(4, 1).unwrap(), vec![false, true, true, true, false, false]);
    assert_eq!(create_order_mask(4, 2).unwrap(), vec![false, false, true, true, true, false]);
    assert_eq!(create_order_mask(5, 1).unwrap(), vec![false, true, true, true, false, false]);
    assert_eq!(create_order_mask(5, 2).unwrap(), vec![false, true, true, true, true, false]);
    assert_eq!(create_order_mask(5, 3).unwrap(), vec![false, false, true, true, true, false]);
}

#[test]
fn length_mask_boundary_lengths() {
    // Two characters: either piece can only have length one.
    assert_eq!(
        create_length_mask(2, 0),
        vec![true, false, false, false, false, false, false, false]
    );
    assert_eq!(
        create_length_mask(2, 1),
        vec![false, false, false, false, true, false, false, false]
    );
    // Three characters.
    assert_eq!(
        create_length_mask(3, 0),
        vec![true, true, false, false, false, false, false, false]
    );
    assert_eq!(
        create_length_mask(3, 1),
        vec![false, true, false, false, false, true, false, false]
    );
    assert_eq!(
        create_length_mask(3, 2),
        vec![false, false, false, false, true, true, false, false]
    );
    // Four characters.
    assert_eq!(
        create_length_mask(4, 1),
        vec![false, true, true, false, false, false, true, false]
    );
    // Five characters and beyond: clamped at the four-or-more class.
    assert_eq!(
        create_length_mask(5, 2),
        vec![false, false, true, true, false, false, true, true]
    );
    assert_eq!(
        create_length_mask(6, 2),
        vec![false, false, true, true, false, false, false, true]
    );
}

#[test]
fn order_status_classes() {
    let piece = "山田太".to_string();
    assert_eq!(calc_current_order_status(&piece, 0, true), 0);
    assert_eq!(calc_current_order_status(&piece, 1, true), 1);
    assert_eq!(calc_current_order_status(&piece, 2, true), 2);
    assert_eq!(calc_current_order_status(&piece, 0, false), 3);
    assert_eq!(calc_current_order_status(&piece, 1, false), 4);
    assert_eq!(calc_current_order_status(&piece, 2, false), 5);
    let single = "山".to_string();
    // A piece of one character is reported as a start.
    assert_eq!(calc_current_order_status(&single, 0, true), 0);
    assert_eq!(calc_current_order_status(&single, 0, false), 3);
}

#[test]
fn length_status_classes() {
    assert_eq!(calc_current_length_status(&"山".to_string(), true), 0);
    assert_eq!(calc_current_length_status(&"山田".to_string(), true), 1);
    assert_eq!(calc_current_length_status(&"山田太郎".to_string(), true), 3);
    assert_eq!(calc_current_length_status(&"阿久津主税".to_string(), true), 3);
    assert_eq!(calc_current_length_status(&"山".to_string(), false), 4);
    assert_eq!(calc_current_length_status(&"阿久津主税".to_string(), false), 7);
}

#[test]
fn order_score_of_middle_character() {
    // In a three-character name only the middle character contributes, and
    // its mask keeps the family-end and given-start classes.
    let repo = KanjiStatisticsRepository::new(vec![
        stat('義', [0, 0, 1, 3, 0, 0], [0; 8]),
    ]);
    // Given piece of a one-and-two split: the middle character opens it.
    let given_score = calc_order_score(&repo, &"義偉".to_string(), 3, 1);
    assert_eq!(given_score, 3 * SCALE / 4);
    // Family piece of a two-and-one split: the middle character closes it.
    let family_score = calc_order_score(&repo, &"菅義".to_string(), 3, 0);
    assert_eq!(family_score, SCALE / 4);
    // An unknown piece contributes nothing.
    assert_eq!(calc_order_score(&repo, &"菅".to_string(), 3, 0), 0);
}

#[test]
fn length_score_sums_piece_contributions() {
    let repo = KanjiStatisticsRepository::new(vec![
        stat('義', [0; 6], [0, 1, 0, 0, 0, 1, 0, 0]),
        stat('偉', [0; 6], [0, 0, 0, 0, 1, 1, 0, 0]),
    ]);
    // The given piece of 菅義偉 cut one-and-two: 義 and 偉 each give one half.
    let given_score = calc_length_score(&repo, &"義偉".to_string(), 3, 1);
    assert_eq!(given_score, SCALE / 2 + SCALE / 2);
    // A character whose masked counts vanish is skipped.
    let unknown_score = calc_length_score(&repo, &"菅".to_string(), 3, 0);
    assert_eq!(unknown_score, 0);
}
