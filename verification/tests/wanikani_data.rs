//! WaniKani summary counts, the daily-goal decision, and the statistics
//! URL with its Japan-midnight cutoff.

use study_tracker::cacheable::CacheCodec;
use study_tracker::calendar::{epoch_from_civil, Date};
use study_tracker::wanikani::{
    stats_api_url, DataStructure, Lesson, SummaryDataStructure, WaniKaniDataForFrontend,
    WaniKaniResponse, WanikaniData, WanikaniReviewStats, WanikaniSummaryResponse,
};

const NOW: u64 = 1700000000;

fn lesson(subject_ids: Vec<u32>) -> Lesson {
    Lesson { subject_ids }
}

fn summary() -> WanikaniSummaryResponse {
    WanikaniSummaryResponse {
        data_updated_at: NOW - 120,
        data: SummaryDataStructure {
            lessons: vec![lesson(vec![1, 2, 3]), lesson(vec![4])],
            reviews: vec![lesson(vec![5, 6]), lesson(vec![7, 8, 9])],
        },
    }
}

#[test]
fn daily_study_goal_needs_at_least_one_review() {
    assert!(WanikaniReviewStats { total_count: 1 }.daily_study_goal_met());
    assert!(WanikaniReviewStats { total_count: 573 }.daily_study_goal_met());
    assert!(!WanikaniReviewStats { total_count: 0 }.daily_study_goal_met());
}

#[test]
fn summary_counts_add_up() {
    let s = summary();
    assert_eq!(s.data.total_lessons(), 4);
    assert_eq!(s.data.current_reviews(), 2);

    let empty = SummaryDataStructure {
        lessons: vec![],
        reviews: vec![],
    };
    assert_eq!(empty.total_lessons(), 0);
    assert_eq!(empty.current_reviews(), 0);
}

#[test]
fn wanikani_data_combines_summary_and_stats() {
    let data = WanikaniData::new(summary(), WanikaniReviewStats { total_count: 2 });
    assert_eq!(data.data_updated_at, NOW - 120);
    assert_eq!(data.active_lesson_count, 4);
    assert_eq!(data.active_review_count, 2);
    assert!(data.daily_study_goal_met);

    let idle = WanikaniData::new(summary(), WanikaniReviewStats { total_count: 0 });
    assert!(!idle.daily_study_goal_met);
}

#[test]
fn older_summary_shape_reports_the_same_counts() {
    let response = WaniKaniResponse {
        object: "report".to_owned(),
        url: "https://api.wanikani.com/v2/summary".to_owned(),
        data_updated_at: NOW,
        data: DataStructure {
            lessons: vec![lesson(vec![1]), lesson(vec![2, 3])],
            next_reviews_at: NOW + 1800,
            reviews: vec![lesson(vec![4, 5, 6, 7]), lesson(vec![8])],
        },
    };
    assert_eq!(response.data.total_reviews(), 5);
    assert_eq!(response.data.total_lessons(), 3);
    assert_eq!(response.data.current_reviews(), 4);

    let frontend = WaniKaniDataForFrontend::from_response(&response);
    assert_eq!(frontend.data_updated_at, NOW);
    assert_eq!(frontend.active_lesson_count, 3);
    assert_eq!(frontend.active_review_count, 4);
}

#[test]
fn test_returns_todays_jst_date_in_utc() {
    let from_date = epoch_from_civil(Date { year: 2023, month: 7, day: 15 }, 15, 2, 15);
    let url = stats_api_url(from_date);

    assert_eq!(
        url,
        "https://api.wanikani.com/v2/review_statistics?updated_after=2023-07-15T15:00:00.000Z"
    );

    let from_date = epoch_from_civil(Date { year: 2023, month: 7, day: 15 }, 14, 58, 15);
    let url = stats_api_url(from_date);

    assert_eq!(
        url,
        "https://api.wanikani.com/v2/review_statistics?updated_after=2023-07-14T15:00:00.000Z"
    );
}

#[test]
fn summary_round_trips_through_the_cache_encoding() {
    let s = summary();
    let text = s.encode();
    assert_eq!(WanikaniSummaryResponse::decode(text.as_str()), Some(s));
    assert_eq!(WanikaniSummaryResponse::decode(""), None);

    let stats = WanikaniReviewStats { total_count: 9 };
    let text = stats.encode();
    assert_eq!(WanikaniReviewStats::decode(text.as_str()), Some(stats));

    // A trailing remainder is not a canonical encoding.
    let mut padded = text.clone();
    padded.push('x');
    assert_eq!(WanikaniReviewStats::decode(padded.as_str()), None);
}
