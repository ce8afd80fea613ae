//! Satori Reader heat levels, the dashboard scan for the heat-map JSON,
//! and the combined frontend view.

use study_tracker::cacheable::{CacheCodec, FetchError};
use study_tracker::satori::{
    extract_heat_data_from_js, heat_json_from_dashboard, todays_heat_level, InvalidHeatLevel,
    SatoriCurrentCardsResponse, SatoriData, SatoriHeatData, SatoriHeatLevel,
    SatoriNewCardsResponse, SatoriStats,
};

const NOW: u64 = 1700000000;

fn heat_entry(day: &str, score_milli: i64) -> SatoriHeatData {
    SatoriHeatData {
        date: day.to_owned(),
        score_milli,
    }
}

#[test]
fn test_todays_heat_level_with_day_defined() {
    let heat_data = vec![heat_entry("2023-04-18", 9400)];

    let heat_level = todays_heat_level(&heat_data, "2023-04-18");

    assert_eq!(heat_level, SatoriHeatLevel::Four);
}

#[test]
fn test_todays_heat_level_with_day_missing() {
    let heat_data = vec![heat_entry("2023-04-18", 9400)];

    let heat_level = todays_heat_level(&heat_data, "2023-04-19");

    assert_eq!(heat_level, SatoriHeatLevel::Zero);
}

#[test]
fn heat_levels_follow_the_dashboard_thresholds() {
    assert_eq!(heat_entry("d", 0).heat_level(), SatoriHeatLevel::Zero);
    assert_eq!(heat_entry("d", -100).heat_level(), SatoriHeatLevel::Zero);
    assert_eq!(heat_entry("d", 500).heat_level(), SatoriHeatLevel::One);
    assert_eq!(heat_entry("d", 1000).heat_level(), SatoriHeatLevel::One);
    assert_eq!(heat_entry("d", 1500).heat_level(), SatoriHeatLevel::Two);
    assert_eq!(heat_entry("d", 3000).heat_level(), SatoriHeatLevel::Two);
    assert_eq!(heat_entry("d", 9000).heat_level(), SatoriHeatLevel::Three);
    assert_eq!(heat_entry("d", 9001).heat_level(), SatoriHeatLevel::Four);
}

#[test]
fn heat_level_class_names_parse() {
    assert_eq!(
        SatoriHeatLevel::from_class_name("heat0"),
        Ok(SatoriHeatLevel::Zero)
    );
    assert_eq!(
        SatoriHeatLevel::from_class_name("heat1"),
        Ok(SatoriHeatLevel::One)
    );
    assert_eq!(
        SatoriHeatLevel::from_class_name("heat2"),
        Ok(SatoriHeatLevel::Two)
    );
    assert_eq!(
        SatoriHeatLevel::from_class_name("heat3"),
        Ok(SatoriHeatLevel::Three)
    );
    assert_eq!(
        SatoriHeatLevel::from_class_name("heat4"),
        Ok(SatoriHeatLevel::Four)
    );
    assert_eq!(
        SatoriHeatLevel::from_class_name("heat5"),
        Err(InvalidHeatLevel {})
    );
}

#[test]
fn test_extract_heat_data_from_js() {
    let expected_data = r#"[{"userID":"[REDACTED]","date":"2023-04-18","score":9.39999999999999}]"#;
    let javascript = format!(
        "window.onload = draw;\nvar activityScores = {};\ndraw(activityScores);\n",
        expected_data
    );

    let heatmap_data = extract_heat_data_from_js(&javascript);

    assert_eq!(heatmap_data, Ok(expected_data.to_owned()));
}

#[test]
fn extraction_takes_the_last_semicolon_of_the_line() {
    let javascript = "var activityScores = [1];[2]; // done\n";
    assert_eq!(
        extract_heat_data_from_js(javascript),
        Ok("[1];[2]".to_owned())
    );
}

#[test]
fn extraction_without_the_marker_is_missing_data() {
    assert_eq!(
        extract_heat_data_from_js("var somethingElse = [];\n"),
        Err(FetchError::MissingData("Unable to find heat data json".to_owned()))
    );
    // A marker whose line never closes with a semicolon finds nothing.
    assert_eq!(
        extract_heat_data_from_js("var activityScores = [1]\nnope;"),
        Err(FetchError::MissingData("Unable to find heat data json".to_owned()))
    );
}

#[test]
fn dashboard_page_yields_its_heat_json() {
    let scores = r#"[{"userID":"u","date":"2023-04-18","score":9.39999999999999}]"#;
    let html = format!(
        "<html><head><script type=\"text/javascript\">\nvar activityScores = {};\n</script></head><body></body></html>",
        scores
    );

    assert_eq!(heat_json_from_dashboard(&html), Ok(scores.to_owned()));
}

#[test]
fn dashboard_with_extra_script_blocks_is_malformed() {
    let html = "<html><head>\
        <script type=\"text/javascript\">var a = 1;</script>\
        <script type=\"text/javascript\">var b = 2;</script>\
        </head><body></body></html>";

    assert_eq!(
        heat_json_from_dashboard(html),
        Err(FetchError::MalformedBody(
            "Expected to find 1 element, found 2 elements".to_owned()
        ))
    );

    let bare = "<html><head></head><body>no scripts here</body></html>";
    assert_eq!(
        heat_json_from_dashboard(bare),
        Err(FetchError::MalformedBody(
            "Expected to find 1 element, found 0 elements".to_owned()
        ))
    );
}

#[test]
fn satori_data_combines_the_three_answers() {
    let current = SatoriCurrentCardsResponse {
        result: 6,
        success: true,
        message: None,
        exception: None,
        fetched_at: Some(NOW - 30),
    };
    let new_cards = SatoriNewCardsResponse {
        result: 2,
        success: true,
        message: None,
        exception: None,
    };
    let stats = SatoriStats {
        heat_level: SatoriHeatLevel::Four,
    };

    let data = SatoriData::new(current, new_cards, stats, NOW);

    assert_eq!(data.data_updated_at, NOW - 30);
    assert_eq!(data.active_review_count, 6);
    assert_eq!(data.new_card_count, 2);
    assert!(data.daily_study_goal_met);

    let current = SatoriCurrentCardsResponse {
        result: 0,
        success: true,
        message: None,
        exception: None,
        fetched_at: None,
    };
    let stats = SatoriStats {
        heat_level: SatoriHeatLevel::Three,
    };
    let new_cards = SatoriNewCardsResponse {
        result: 0,
        success: true,
        message: None,
        exception: None,
    };
    let data = SatoriData::new(current, new_cards, stats, NOW);
    assert_eq!(data.data_updated_at, NOW);
    assert!(!data.daily_study_goal_met);
}

#[test]
fn satori_responses_round_trip_through_the_cache_encoding() {
    let current = SatoriCurrentCardsResponse {
        result: 6,
        success: false,
        message: Some("be:careful;with:delimiters".to_owned()),
        exception: Some("".to_owned()),
        fetched_at: Some(NOW),
    };
    let text = current.encode();
    assert_eq!(SatoriCurrentCardsResponse::decode(text.as_str()), Some(current));

    let stats = SatoriStats {
        heat_level: SatoriHeatLevel::Two,
    };
    let text = stats.encode();
    assert_eq!(SatoriStats::decode(text.as_str()), Some(stats));
    assert_eq!(SatoriStats::decode("99999999999999999999"), None);
}
