//! Bunpro review history, the daily-goal decision, and the cookie search
//! the statistics client depends on.

use study_tracker::bunpro::{
    frontend_token_from_cookies, BunproData, BunproReviewStats, StudyQueue, StudyQueueData,
    UserInformation,
};
use study_tracker::cacheable::{CacheCodec, FetchError};
use study_tracker::calendar::{epoch_from_civil, Date, JST_OFFSET_SECONDS};

fn review_history() -> BunproReviewStats {
    BunproReviewStats {
        grammar: vec![
            ("2023-09-29".to_owned(), 3),
            ("2023-09-30".to_owned(), 21),
        ],
        vocab: vec![("2023-09-30".to_owned(), 2)],
    }
}

fn study_queue(reviews_available: u32, fetched_at: Option<u64>) -> StudyQueue {
    StudyQueue {
        user_information: UserInformation {
            username: "learner".to_owned(),
            grammar_point_count: 120,
            ghost_review_count: 2,
            creation_date: 1600000000,
        },
        requested_information: StudyQueueData {
            reviews_available,
            next_review_date: 1700003600,
            reviews_available_next_hour: 1,
            reviews_available_next_day: 9,
        },
        fetched_at,
    }
}

#[test]
fn count_for_finds_the_recorded_day() {
    let stats = review_history();
    let count = stats.count_for(&Date { year: 2023, month: 9, day: 30 });
    assert_eq!(count, 21);
}

#[test]
fn count_for_missing_day_is_zero() {
    let stats = review_history();
    let count = stats.count_for(&Date { year: 2023, month: 1, day: 1 });
    assert_eq!(count, 0);
}

#[test]
fn daily_goal_follows_the_day_in_japan() {
    // Noon in Japan on 2023-09-30: the history records 21 reviews.
    let now = epoch_from_civil(Date { year: 2023, month: 9, day: 30 }, 12, 0, 0)
        - JST_OFFSET_SECONDS;
    let data = BunproData::new(study_queue(4, Some(now)), review_history(), now);
    assert!(data.daily_study_goal_met);
    assert_eq!(data.active_review_count, 4);
    assert_eq!(data.data_updated_at, now);

    // The next day in Japan has no recorded reviews.
    let later = epoch_from_civil(Date { year: 2023, month: 10, day: 1 }, 12, 0, 0)
        - JST_OFFSET_SECONDS;
    let data = BunproData::new(study_queue(4, None), review_history(), later);
    assert!(!data.daily_study_goal_met);
    assert_eq!(data.data_updated_at, later);
}

#[test]
fn frontend_token_is_found_by_name() {
    let cookies = vec![
        ("unrelated".to_owned(), "x".to_owned()),
        ("frontend_api_token".to_owned(), "session-token-123".to_owned()),
    ];
    assert_eq!(
        frontend_token_from_cookies(&cookies),
        Ok("session-token-123".to_owned())
    );
}

#[test]
fn missing_frontend_token_is_a_missing_credential() {
    let cookies = vec![("unrelated".to_owned(), "x".to_owned())];
    assert_eq!(
        frontend_token_from_cookies(&cookies),
        Err(FetchError::MissingCredential(
            "frontend_api_token cookie could not be found".to_owned()
        ))
    );
}

#[test]
fn study_queue_round_trips_through_the_cache_encoding() {
    let queue = study_queue(4, Some(1700000000));
    let text = queue.encode();
    assert_eq!(StudyQueue::decode(text.as_str()), Some(queue));
}

#[test]
fn review_history_round_trips_with_awkward_keys() {
    let stats = BunproReviewStats {
        grammar: vec![
            ("文法;日付:テスト".to_owned(), 7),
            ("".to_owned(), 0),
        ],
        vocab: vec![],
    };
    let text = stats.encode();
    assert_eq!(BunproReviewStats::decode(text.as_str()), Some(stats));
    assert_eq!(BunproReviewStats::decode(""), None);
}

#[test]
fn stamping_the_fetch_time_changes_nothing_else() {
    let queue = study_queue(4, None);
    let stamped = queue.clone().with_fetched_at(1700000123);
    assert_eq!(stamped.fetched_at, Some(1700000123));
    assert_eq!(stamped.requested_information, queue.requested_information);
    assert_eq!(stamped.user_information, queue.user_information);
}
