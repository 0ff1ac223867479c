use namedivider::family_name::FamilyNameRepository;
use namedivider::kanji::{KanjiStatistics, KanjiStatisticsRepository};

fn stat(kanji: char, order_counts: [u32; 6], length_counts: [u32; 8]) -> KanjiStatistics {
    KanjiStatistics { kanji, order_counts: order_counts.to_vec(), length_counts: length_counts.to_vec() }
}

#[test]
fn kanji_repository_answers_known_characters() {
    let repo = KanjiStatisticsRepository::new(vec![
        stat('山', [1, 2, 3, 4, 5, 6], [1, 0, 0, 0, 0, 0, 0, 2]),
        stat('田', [9, 8, 7, 6, 5, 4], [0; 8]),
    ]);
    let found = repo.get(&"田".to_string());
    assert_eq!(found.kanji, '田');
    assert_eq!(found.order_counts, vec![9, 8, 7, 6, 5, 4]);
    let also = repo.get(&"山".to_string());
    assert_eq!(also.length_counts, vec![1, 0, 0, 0, 0, 0, 0, 2]);
}

#[test]
fn kanji_repository_defaults_to_zero_counts() {
    let repo = KanjiStatisticsRepository::new(vec![stat('山', [1; 6], [1; 8])]);
    let unknown = repo.get(&"奏".to_string());
    assert_eq!(unknown.order_counts, vec![0, 0, 0, 0, 0, 0]);
    assert_eq!(unknown.length_counts, vec![0, 0, 0, 0, 0, 0, 0, 0]);
    // A key that is not one single character also gets the default.
    let multi = repo.get(&"山田".to_string());
    assert_eq!(multi.order_counts, vec![0, 0, 0, 0, 0, 0]);
    let empty = repo.get(&"".to_string());
    assert_eq!(empty.order_counts, vec![0, 0, 0, 0, 0, 0]);
}

#[test]
fn kanji_repository_later_entry_wins() {
    let repo = KanjiStatisticsRepository::new(vec![
        stat('山', [1; 6], [1; 8]),
        stat('山', [2; 6], [2; 8]),
    ]);
    assert_eq!(repo.get(&"山".to_string()).order_counts, vec![2; 6]);
}

#[test]
fn family_ranking_is_list_position() {
    let repo = FamilyNameRepository::new(vec![
        "佐藤".to_string(),
        "鈴木".to_string(),
        "高橋".to_string(),
    ]);
    assert_eq!(repo.get_rank(&"佐藤".to_string()), Some(0));
    assert_eq!(repo.get_rank(&"鈴木".to_string()), Some(1));
    assert_eq!(repo.get_rank(&"高橋".to_string()), Some(2));
}

#[test]
fn family_ranking_unknown_name_has_no_rank() {
    let repo = FamilyNameRepository::new(vec!["佐藤".to_string()]);
    assert_eq!(repo.get_rank(&"梅津".to_string()), None);
    let empty = FamilyNameRepository::new(vec![]);
    assert_eq!(empty.get_rank(&"佐藤".to_string()), None);
}

#[test]
fn family_ranking_duplicate_keeps_last_position() {
    let repo = FamilyNameRepository::new(vec![
        "佐藤".to_string(),
        "鈴木".to_string(),
        "佐藤".to_string(),
    ]);
    assert_eq!(repo.get_rank(&"佐藤".to_string()), Some(2));
}
