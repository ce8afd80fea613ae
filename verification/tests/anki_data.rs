//! Anki deck selection and the frontend counts derived from a deck.

use study_tracker::anki::{
    get_japanese_deck, japanese_deck_or_error, AllDecksInfo, AnkiData, DeckInfo, DeckListInfo,
};
use study_tracker::cacheable::{CacheCodec, FetchError};

const NOW: u64 = 1700000000;

fn create_deck_info(
    review_card_count: Option<u32>,
    learn_count: Option<u32>,
    new_card_count: Option<u32>,
) -> DeckInfo {
    DeckInfo {
        deck_id: 1,
        deck_name: String::from("Japanese"),
        level: 3,
        review_card_count,
        learn_count,
        new_card_count,
        uncapped_new_card_count: None,
        uncapped_review_card_count: None,
        total_card_count: 10,
    }
}

fn deck_list(decks: Vec<DeckInfo>) -> DeckListInfo {
    DeckListInfo {
        all_decks_info: Some(AllDecksInfo {
            decks,
            all_decks_review_card_count: None,
            all_decks_new_card_count: None,
        }),
        some_date_probably: 0,
        user_id_maybe: 0,
    }
}

#[test]
fn test_create_anki_data_with_no_reviews_or_new_cards() {
    let deck_info = create_deck_info(None, None, None);

    let anki_data: AnkiData = AnkiData::from_deck(&deck_info, NOW);

    assert_eq!(anki_data.active_review_count, 0);
    assert_eq!(anki_data.new_card_count, 0);
}

#[test]
fn test_create_anki_data_with_reviews_and_new_cards() {
    let deck_info = create_deck_info(Some(10), None, Some(5));

    let anki_data: AnkiData = AnkiData::from_deck(&deck_info, NOW);

    assert_eq!(anki_data.active_review_count, 10);
    assert_eq!(anki_data.new_card_count, 5);
}

#[test]
fn test_create_anki_data_with_learning_and_review_cards() {
    let deck_info = create_deck_info(Some(10), Some(10), None);

    let anki_data = AnkiData::from_deck(&deck_info, NOW);

    assert_eq!(anki_data.active_review_count, 20);
    assert_eq!(anki_data.new_card_count, 0);
}

#[test]
fn anki_data_records_goal_and_totals() {
    let mut deck = create_deck_info(Some(0), None, Some(4));
    deck.uncapped_review_card_count = Some(59);
    deck.uncapped_new_card_count = Some(159);

    let anki_data = AnkiData::from_deck(&deck, NOW);

    assert_eq!(anki_data.total_active_review_count, 59);
    assert_eq!(anki_data.total_new_card_count, 159);
    assert_eq!(anki_data.data_updated_at, NOW);
    assert!(anki_data.daily_study_goal_met);

    let busy = AnkiData::from_deck(&create_deck_info(Some(3), None, None), NOW);
    assert!(!busy.daily_study_goal_met);
}

#[test]
fn finds_the_japanese_deck_among_others() {
    let mut other = create_deck_info(Some(1), None, None);
    other.deck_name = String::from("French");
    other.deck_id = 7;
    let japanese = create_deck_info(Some(2), None, None);
    let info = deck_list(vec![other, japanese.clone()]);

    let found = get_japanese_deck(&info).expect("the Japanese deck is present");
    assert_eq!(found, japanese);
}

#[test]
fn missing_japanese_deck_is_a_missing_data_error() {
    let mut other = create_deck_info(Some(1), None, None);
    other.deck_name = String::from("French");
    let info = deck_list(vec![other]);

    assert_eq!(get_japanese_deck(&info), None);
    assert_eq!(
        japanese_deck_or_error(&info),
        Err(FetchError::MissingData(
            "Could not find Japanese deck".to_owned()
        ))
    );

    let empty = DeckListInfo {
        all_decks_info: None,
        some_date_probably: 0,
        user_id_maybe: 0,
    };
    assert_eq!(get_japanese_deck(&empty), None);
}

#[test]
fn anki_data_round_trips_through_the_cache_encoding() {
    let value = AnkiData {
        active_review_count: 20,
        total_active_review_count: 59,
        new_card_count: 5,
        total_new_card_count: 159,
        data_updated_at: NOW,
        daily_study_goal_met: false,
    };
    let text = value.encode();
    assert_eq!(AnkiData::decode(text.as_str()), Some(value));
    assert_eq!(AnkiData::decode("garbage"), None);
}
