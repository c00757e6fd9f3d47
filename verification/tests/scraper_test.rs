use music_stats::errors::Error;
use music_stats::providers::youtube::dates::{midday_timestamp, prev_day, CivilDate};
use music_stats::providers::youtube::http::{
    build_auth_header, extract_sapisid, sanitize_cookie,
};
use music_stats::providers::youtube::parse::{
    decode_html_entities, extract_balanced_json, parse_history_html, parse_shelf_date,
    resolve_shelf_date,
};

fn june_tenth() -> CivilDate {
    CivilDate {
        year: 2024,
        month: 6,
        day: 10,
    }
}

// 2024-06-10, a little before eight in the morning UTC.
const NOW: i64 = 1_718_000_000;

#[test]
fn html_without_marker_is_a_scraping_error() {
    let result = parse_history_html("<html><body>nothing here</body></html>", 7, june_tenth(), NOW);
    match result {
        Err(Error::YouTubeScraping { detail }) => {
            assert_eq!(detail, "No YouTube Music data found in HTML");
        }
        _ => panic!("expected a structural scraping error"),
    }
}

#[test]
fn data_that_is_not_json_is_a_scraping_error() {
    let escaped = "not json at all";
    let html = format!(
        "<script>initialData.push({{path: '/browse', data: '{}'}});ytcfg.set({{'YTMUSIC_INITIAL_DATA': initialData}});</script>",
        escaped
    );
    let result = parse_history_html(&html, 7, june_tenth(), NOW);
    match result {
        Err(Error::YouTubeScraping { detail }) => {
            assert!(detail.starts_with("Invalid JSON"));
        }
        _ => panic!("expected a structural scraping error"),
    }
}

#[test]
fn json_without_expected_path_is_a_scraping_error() {
    let escaped = r#"{"contents": 3}"#.replace('{', "\\x7b").replace('}', "\\x7d").replace('"', "\\x22");
    let html = format!(
        "<script>initialData.push({{path: '/browse', data: '{}'}});ytcfg.set({{'YTMUSIC_INITIAL_DATA': initialData}});</script>",
        escaped
    );
    let result = parse_history_html(&html, 7, june_tenth(), NOW);
    match result {
        Err(Error::YouTubeScraping { detail }) => {
            assert_eq!(detail, "Expected structure not found in JSON");
        }
        _ => panic!("expected a structural scraping error"),
    }
}

fn history_json() -> String {
    let title_run = r#"{"text":"Paranoid Android","navigationEndpoint":{"watchEndpoint":{"videoId":"v"}}}"#;
    let artist_run = r#"{"text":"Radiohead","navigationEndpoint":{"browseEndpoint":{"browseEndpointContextSupportedConfigs":{"browseEndpointContextMusicConfig":{"pageType":"MUSIC_PAGE_TYPE_ARTIST"}}}}}"#;
    let full_item = format!(
        r#"{{"musicResponsiveListItemRenderer":{{"flexColumns":[{{"musicResponsiveListItemFlexColumnRenderer":{{"text":{{"runs":[{},{}]}}}}}}]}}}}"#,
        title_run, artist_run
    );
    let title_only_run = r#"{"text":"Instrumental","navigationEndpoint":{"watchEndpoint":{"videoId":"w"}}}"#;
    let orphan_item = format!(
        r#"{{"musicResponsiveListItemRenderer":{{"flexColumns":[{{"musicResponsiveListItemFlexColumnRenderer":{{"text":{{"runs":[{}]}}}}}}]}}}}"#,
        title_only_run
    );
    let today_shelf = format!(
        r#"{{"musicShelfRenderer":{{"title":{{"runs":[{{"text":"Today"}}]}},"contents":[{},{}]}}}}"#,
        full_item, orphan_item
    );
    let stale_shelf = r#"{"musicShelfRenderer":{"title":{"runs":[{"text":"Some happier time"}]},"contents":[]}}"#;
    format!(
        r#"{{"contents":{{"singleColumnBrowseResultsRenderer":{{"tabs":[{{"tabRenderer":{{"content":{{"sectionListRenderer":{{"contents":[{},{}]}}}}}}}}]}}}}}}"#,
        today_shelf, stale_shelf
    )
}

fn history_html() -> String {
    let escaped = history_json()
        .replace('{', "\\x7b")
        .replace('}', "\\x7d")
        .replace('"', "\\x22");
    format!(
        "<html><script>initialData.push({{path: '/browse', data: '{}'}});ytcfg.set({{'YTMUSIC_INITIAL_DATA': initialData}});</script></html>",
        escaped
    )
}

#[test]
fn scraper_recovers_plays_from_embedded_data() {
    let scrobbles = parse_history_html(&history_html(), 7, june_tenth(), NOW).unwrap();
    assert_eq!(scrobbles.len(), 2);
    assert_eq!(scrobbles[0].track.title, "Paranoid Android");
    assert_eq!(scrobbles[0].track.artist, "Radiohead");
    // "Today" on 2024-06-10 anchors at that day's midday UTC.
    assert_eq!(scrobbles[0].played_at, 1_718_020_800);
    assert_eq!(scrobbles[1].track.title, "Instrumental");
    assert_eq!(scrobbles[1].track.artist, "Unknown Artist");
}

#[test]
fn scraper_drops_plays_outside_the_window() {
    // A one-day window measured long after the plays excludes them all.
    let later = NOW + 30 * 86400;
    let scrobbles = parse_history_html(&history_html(), 1, june_tenth(), later).unwrap();
    assert!(scrobbles.is_empty());
}

#[test]
fn yesterday_shelf_resolves_to_prior_midday() {
    let text = resolve_shelf_date("Yesterday", june_tenth());
    assert_eq!(text, "2024-06-09");
    let ts = parse_shelf_date(&text, NOW).unwrap();
    assert_eq!(ts, 1_717_934_400);
}

#[test]
fn today_keywords_cover_several_locales() {
    for label in ["Today", "HOY", "hoje", "Oggi", "Aujourd'hui"] {
        assert_eq!(resolve_shelf_date(label, june_tenth()), "2024-06-10");
    }
    for label in ["yesterday", "Ayer", "ONTEM", "ieri", "Hier"] {
        assert_eq!(resolve_shelf_date(label, june_tenth()), "2024-06-09");
    }
}

#[test]
fn unrecognised_labels_pass_through_unchanged() {
    assert_eq!(
        resolve_shelf_date("Some happier time", june_tenth()),
        "Some happier time"
    );
    assert_eq!(parse_shelf_date("Some happier time", NOW), None);
}

#[test]
fn last_week_falls_back_to_four_days_ago() {
    assert_eq!(parse_shelf_date("Last week", NOW), Some(NOW - 4 * 86400));
    assert_eq!(parse_shelf_date("Última semana", NOW), Some(NOW - 4 * 86400));
}

#[test]
fn explicit_dates_anchor_at_midday() {
    assert_eq!(parse_shelf_date("2024-06-09", NOW), Some(1_717_934_400));
    assert_eq!(parse_shelf_date("1970-01-01", NOW), Some(43200));
    assert_eq!(parse_shelf_date("2024-02-30", NOW), None);
    assert_eq!(parse_shelf_date("2024-13-01", NOW), None);
    assert_eq!(parse_shelf_date("2024-6-9", NOW), None);
}

#[test]
fn previous_day_respects_month_and_leap_boundaries() {
    let d = |year, month, day| CivilDate { year, month, day };
    assert_eq!(prev_day(d(2024, 6, 10)), d(2024, 6, 9));
    assert_eq!(prev_day(d(2024, 3, 1)), d(2024, 2, 29));
    assert_eq!(prev_day(d(2023, 3, 1)), d(2023, 2, 28));
    assert_eq!(prev_day(d(2024, 1, 1)), d(2023, 12, 31));
}

#[test]
fn midday_of_epoch_day() {
    let epoch = CivilDate {
        year: 1970,
        month: 1,
        day: 1,
    };
    assert_eq!(midday_timestamp(epoch), 43200);
}

#[test]
fn hex_escapes_are_decoded() {
    assert_eq!(decode_html_entities("\\x22abc\\x7b"), "\"abc{");
    assert_eq!(decode_html_entities("no escapes"), "no escapes");
    assert_eq!(decode_html_entities("\\xZZ stays"), "\\xZZ stays");
    assert_eq!(decode_html_entities("tail\\x"), "tail\\x");
}

#[test]
fn balanced_extraction_ignores_braces_in_strings() {
    let text = r#"pre{"a": "va}lue", "b": {"c": 1}}post"#;
    let extracted = extract_balanced_json(text, 3).unwrap();
    assert_eq!(extracted, r#"{"a": "va}lue", "b": {"c": 1}}"#);
    assert_eq!(extract_balanced_json("{never closed", 0), None);
}

#[test]
fn session_identifier_is_taken_from_the_cookie() {
    let cookie = "A=1; __Secure-3PAPISID=abc123xyz; B=2";
    assert_eq!(extract_sapisid(cookie).unwrap(), "abc123xyz");
    let at_end = "A=1; __Secure-3PAPISID=tail";
    assert_eq!(extract_sapisid(at_end).unwrap(), "tail");
    match extract_sapisid("A=1; B=2") {
        Err(Error::YouTubeAuth { reason }) => {
            assert_eq!(reason, "Cookie missing __Secure-3PAPISID");
        }
        _ => panic!("expected an authentication error"),
    }
    assert!(extract_sapisid("__Secure-3PAPISID=;empty").is_err());
}

#[test]
fn sanitised_cookie_is_printable_and_consented() {
    assert_eq!(sanitize_cookie("  a\tb  c  "), "ab c; SOCS=CAI");
    assert_eq!(sanitize_cookie("X=1; SOCS=CAI; Y=2"), "X=1; SOCS=CAI; Y=2");
    assert_eq!(sanitize_cookie("caf\u{e9}=1"), "caf=1; SOCS=CAI");
}

#[test]
fn auth_header_carries_timestamp_and_digest() {
    let header = build_auth_header("sid", 1_718_000_000);
    assert!(header.starts_with("SAPISIDHASH 1718000000_"));
    let digest = &header["SAPISIDHASH 1718000000_".len()..];
    assert_eq!(digest.len(), 40);
    assert!(digest.chars().all(|c| c.is_ascii_hexdigit()));
    assert_ne!(digest, "sid");
    // The digest is a function of its input alone.
    assert_eq!(header, build_auth_header("sid", 1_718_000_000));
    assert_ne!(build_auth_header("other", 1_718_000_000), header);
}
