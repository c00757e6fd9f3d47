use music_stats::app::combine_provider_results;
use music_stats::config::{validate, Config, LastFmConfig};
use music_stats::errors::Error;
use music_stats::http::{retry_decision, RetryDecision};
use music_stats::lastfm::api_types::{ApiTrack, ArtistInfo, DateInfo, PageAttr};
use music_stats::lastfm::client::{build_page_url, page_outcome, scrobbles_from_tracks};
use music_stats::lastfm::pagination::next_page;
use music_stats::lastfm::{summarize_recent_tracks, RecentTrack};
use music_stats::model::{aggregate_scrobbles, Scrobble, Track};
use music_stats::output::format::stats_to_text;
use music_stats::output::github::{build_gist_update, gist_outcome};
use music_stats::providers::{timestamp_from, within_days};
use music_stats::spotify::{basic_auth_value, top_tracks_url};
use music_stats::text::parse_u64;

fn play(artist: &str, title: &str, played_at: i64) -> Scrobble {
    Scrobble {
        track: Track {
            artist: artist.to_string(),
            title: title.to_string(),
        },
        played_at,
    }
}

#[test]
fn statistics_of_realistic_run() {
    let scrobbles = vec![
        play("Radiohead", "Paranoid Android", 100),
        play("Radiohead", "Paranoid Android", 200),
        play("Radiohead", "Paranoid Android", 300),
        play("Pink Floyd", "Shine On You Crazy Diamond", 400),
        play("Pink Floyd", "Shine On You Crazy Diamond", 500),
        play("The Beatles", "A Day in the Life", 600),
    ];
    let stats = aggregate_scrobbles(scrobbles, 5);
    assert_eq!(stats.total_plays, 6);
    assert_eq!(stats.unique_tracks, 3);
    assert_eq!(stats.top_tracks.len(), 3);
    assert_eq!(stats.top_tracks[0].0.artist, "Radiohead");
    assert_eq!(stats.top_tracks[0].1, 3);
    assert_eq!(stats.top_tracks[1].0.artist, "Pink Floyd");
    assert_eq!(stats.top_tracks[1].1, 2);
    assert_eq!(stats.top_tracks[2].0.artist, "The Beatles");
    assert_eq!(stats.top_tracks[2].1, 1);
}

#[test]
fn truncation_to_top_n_keeps_totals() {
    let scrobbles = vec![
        play("A", "1", 0),
        play("B", "2", 0),
        play("B", "2", 0),
        play("C", "3", 0),
    ];
    let stats = aggregate_scrobbles(scrobbles, 1);
    assert_eq!(stats.top_tracks.len(), 1);
    assert_eq!(stats.top_tracks[0].0.artist, "B");
    assert_eq!(stats.total_plays, 4);
    assert_eq!(stats.unique_tracks, 3);
}

#[test]
fn empty_run_yields_empty_statistics() {
    let stats = aggregate_scrobbles(vec![], 10);
    assert_eq!(stats.total_plays, 0);
    assert_eq!(stats.unique_tracks, 0);
    assert!(stats.top_tracks.is_empty());
}

#[test]
fn stats_to_text_renders_counts() {
    let stats = aggregate_scrobbles(
        vec![play("Artist", "Song", 1), play("Artist", "Song", 2)],
        10,
    );
    let text = stats_to_text(&stats);
    let expected = format!("Song{}Artist (2\u{d7})", " ".repeat(36));
    assert_eq!(text, expected);
}

#[test]
fn stats_to_text_empty_notice() {
    let stats = aggregate_scrobbles(vec![], 10);
    assert_eq!(stats_to_text(&stats), "No tracks played recently");
}

#[test]
fn failed_provider_is_isolated() {
    let healthy: Result<Vec<Scrobble>, Error> = Ok(vec![
        play("Artist", "Song", 100),
        play("Other", "Tune", 200),
    ]);
    let failed: Result<Vec<Scrobble>, Error> = Err(Error::Network {
        url: "https://ws.audioscrobbler.com/2.0/".to_string(),
        detail: "connection refused".to_string(),
    });
    let combined = combine_provider_results(vec![failed, healthy]);
    assert_eq!(combined.len(), 2);
    assert_eq!(combined[0].track.artist, "Artist");
    assert_eq!(combined[1].track.artist, "Other");
}

#[test]
fn all_providers_failing_yields_empty_run() {
    let a: Result<Vec<Scrobble>, Error> = Err(Error::RateLimit { retry_after: None });
    let b: Result<Vec<Scrobble>, Error> = Err(Error::YouTubeAuth {
        reason: "HTTP 403".to_string(),
    });
    let combined = combine_provider_results(vec![a, b]);
    assert!(combined.is_empty());
}

#[test]
fn pagination_is_capped_at_ten_pages() {
    let attr = Some(PageAttr {
        total_pages: "50".to_string(),
    });
    let mut page: usize = 1;
    let mut requested: usize = 1;
    while let Some(next) = next_page(page, &attr) {
        page = next;
        requested += 1;
    }
    assert_eq!(requested, 10);
    assert_eq!(page, 10);
}

#[test]
fn pagination_stops_at_declared_total() {
    let attr = Some(PageAttr {
        total_pages: "3".to_string(),
    });
    let mut page: usize = 1;
    let mut requested: usize = 1;
    while let Some(next) = next_page(page, &attr) {
        page = next;
        requested += 1;
    }
    assert_eq!(requested, 3);
}

#[test]
fn pagination_without_attributes_stops_after_first_page() {
    assert_eq!(next_page(1, &None), None);
}

#[test]
fn pagination_with_unparseable_total_stops() {
    let attr = Some(PageAttr {
        total_pages: "many".to_string(),
    });
    assert_eq!(next_page(1, &attr), None);
}

#[test]
fn retry_policy_backs_off_exponentially() {
    let transient = Error::Network {
        url: "u".to_string(),
        detail: "timed out".to_string(),
    };
    let permanent = Error::YouTubeAuth {
        reason: "bad cookie".to_string(),
    };
    assert_eq!(
        retry_decision(&transient, 1),
        RetryDecision::RetryAfter { delay_seconds: 2 }
    );
    assert_eq!(
        retry_decision(&transient, 2),
        RetryDecision::RetryAfter { delay_seconds: 4 }
    );
    assert_eq!(retry_decision(&transient, 3), RetryDecision::GiveUp);
    assert_eq!(retry_decision(&permanent, 1), RetryDecision::GiveUp);
}

#[test]
fn transient_errors_are_network_and_rate_limit() {
    assert!(Error::Network {
        url: "u".to_string(),
        detail: "d".to_string()
    }
    .is_transient());
    assert!(Error::RateLimit { retry_after: Some(30) }.is_transient());
    assert!(!Error::NoProviders.is_transient());
    assert!(!Error::YouTubeScraping {
        detail: "d".to_string()
    }
    .is_transient());
    assert!(!Error::LastFmApi {
        status: 500,
        message: "m".to_string()
    }
    .is_transient());
}

#[test]
fn error_messages_name_the_failing_piece() {
    let e = Error::MissingEnvVar {
        variable: "GIST_ID".to_string(),
    };
    assert_eq!(
        e.message(),
        "Missing required environment variable: GIST_ID"
    );
    let e = Error::LastFmApi {
        status: 503,
        message: "overloaded".to_string(),
    };
    assert_eq!(e.message(), "Last.fm API error (status 503): overloaded");
    let e = Error::RateLimit {
        retry_after: Some(30),
    };
    assert_eq!(e.message(), "Rate limited. Retry after 30s");
    let e = Error::GistUpdate {
        gist_id: "abc".to_string(),
        status: 422,
        body: "bad".to_string(),
    };
    assert_eq!(e.message(), "Failed to update gist abc (status 422): bad");
}

#[test]
fn config_without_providers_is_rejected() {
    let config = Config {
        gist_id: "g".to_string(),
        github_token: "t".to_string(),
        lastfm: None,
        youtube_cookie: None,
        days: 7,
        top_n: 10,
    };
    assert!(matches!(validate(&config), Err(Error::NoProviders)));
}

#[test]
fn config_with_zero_days_is_rejected() {
    let config = Config {
        gist_id: "g".to_string(),
        github_token: "t".to_string(),
        lastfm: None,
        youtube_cookie: Some("c".to_string()),
        days: 0,
        top_n: 10,
    };
    match validate(&config) {
        Err(Error::InvalidConfig { field, reason }) => {
            assert_eq!(field, "DAYS");
            assert_eq!(reason, "must be greater than 0");
        }
        _ => panic!("expected a configuration error"),
    }
}

#[test]
fn config_with_zero_top_n_is_rejected() {
    let config = Config {
        gist_id: "g".to_string(),
        github_token: "t".to_string(),
        lastfm: None,
        youtube_cookie: Some("c".to_string()),
        days: 7,
        top_n: 0,
    };
    match validate(&config) {
        Err(Error::InvalidConfig { field, .. }) => assert_eq!(field, "TOP_N"),
        _ => panic!("expected a configuration error"),
    }
}

#[test]
fn complete_config_is_accepted() {
    let config = Config {
        gist_id: "g".to_string(),
        github_token: "t".to_string(),
        lastfm: Some(LastFmConfig {
            api_key: "k".to_string(),
            username: "u".to_string(),
        }),
        youtube_cookie: None,
        days: 7,
        top_n: 10,
    };
    assert!(validate(&config).is_ok());
}

#[test]
fn lastfm_credentials_come_only_in_pairs() {
    assert!(LastFmConfig::from_values(Some("k".to_string()), None).is_none());
    assert!(LastFmConfig::from_values(None, Some("u".to_string())).is_none());
    assert!(LastFmConfig::from_values(Some("  ".to_string()), Some("u".to_string())).is_none());
    assert!(LastFmConfig::from_values(Some("k".to_string()), Some("".to_string())).is_none());
    let both = LastFmConfig::from_values(Some("k".to_string()), Some("u".to_string())).unwrap();
    assert_eq!(both.api_key, "k");
    assert_eq!(both.username, "u");
}

#[test]
fn unsigned_decimal_parsing_matches_std() {
    assert_eq!(parse_u64("123"), Some(123));
    assert_eq!(parse_u64("+7"), Some(7));
    assert_eq!(parse_u64("0"), Some(0));
    assert_eq!(parse_u64(""), None);
    assert_eq!(parse_u64("+"), None);
    assert_eq!(parse_u64("12a"), None);
    assert_eq!(parse_u64(" 5"), None);
    assert_eq!(parse_u64("18446744073709551615"), Some(u64::MAX));
    assert_eq!(parse_u64("18446744073709551616"), None);
}

#[test]
fn page_url_carries_all_parameters() {
    let url = build_page_url("alice", "SECRET-REDACTED", 1000, 3);
    assert_eq!(
        url,
        "https://ws.audioscrobbler.com/2.0/?method=user.getrecenttracks&user=alice&api_key=SECRET-REDACTED&limit=200&from=1000&page=3&format=json"
    );
}

#[test]
fn page_outcome_distinguishes_api_errors() {
    assert!(page_outcome(200, String::new()).is_ok());
    match page_outcome(502, "bad gateway".to_string()) {
        Err(Error::LastFmApi { status, message }) => {
            assert_eq!(status, 502);
            assert_eq!(message, "bad gateway");
        }
        _ => panic!("expected an API error"),
    }
}

#[test]
fn items_without_dates_are_dropped_silently() {
    let tracks = vec![
        ApiTrack {
            name: "Now Playing".to_string(),
            artist: ArtistInfo {
                text: "Someone".to_string(),
            },
            date: None,
        },
        ApiTrack {
            name: "Recorded".to_string(),
            artist: ArtistInfo {
                text: "Someone".to_string(),
            },
            date: Some(DateInfo {}),
        },
    ];
    let scrobbles = scrobbles_from_tracks(tracks);
    assert_eq!(scrobbles.len(), 1);
    assert_eq!(scrobbles[0].title, "Recorded");
}

#[test]
fn gist_update_replaces_the_track_listing() {
    let update = build_gist_update("line one\nline two");
    assert_eq!(update.description, "What I've been listening to");
    assert_eq!(update.files.len(), 1);
    assert_eq!(update.files[0].0, "lastfm-recent-tracks");
    assert_eq!(update.files[0].1.content, "line one\nline two");
}

#[test]
fn gist_failure_carries_full_detail() {
    assert!(gist_outcome("gid", 204, String::new()).is_ok());
    match gist_outcome("gid", 422, "Validation Failed".to_string()) {
        Err(Error::GistUpdate {
            gist_id,
            status,
            body,
        }) => {
            assert_eq!(gist_id, "gid");
            assert_eq!(status, 422);
            assert_eq!(body, "Validation Failed");
        }
        _ => panic!("expected a publish error"),
    }
}

#[test]
fn basic_auth_header_is_base64_of_credentials() {
    assert_eq!(basic_auth_value("id", "secret"), "Basic aWQ6c2VjcmV0");
}

#[test]
fn top_tracks_url_names_limit_and_range() {
    assert_eq!(
        top_tracks_url(25),
        "https://api.spotify.com/v1/me/top/tracks?limit=25&time_range=medium_term"
    );
}

#[test]
fn window_start_saturates_at_epoch() {
    assert_eq!(timestamp_from(1_000_000, 7), 1_000_000 - 7 * 86400);
    assert_eq!(timestamp_from(100, 7), 0);
}

#[test]
fn within_days_measures_from_now() {
    let now = 1_000_000_000;
    assert!(within_days(now, now, 1));
    assert!(within_days(now, now - 86400, 1));
    assert!(!within_days(now, now - 86401, 1));
    assert!(within_days(now, now + 5, 1));
}

#[test]
fn summary_counts_ranks_and_truncates() {
    let now: u64 = 1_000_000;
    let track = |artist: &str, name: &str, uts: Option<&str>| RecentTrack {
        artist: artist.to_string(),
        name: name.to_string(),
        uts: uts.map(|u| u.to_string()),
    };
    let listing = vec![
        track("Radiohead", "Paranoid Android", Some("999000")),
        track("Radiohead", "Paranoid Android", Some("998000")),
        track("Radiohead", "Paranoid Android", Some("997000")),
        track("Pink Floyd", "Echoes", Some("996000")),
        track("Pink Floyd", "Echoes", Some("995000")),
        track("The Beatles", "Rain", Some("994000")),
        track("Someone", "Now Playing", None),
        track("Someone", "Too Old", Some("1000")),
        track("Someone", "Unreadable", Some("x")),
    ];
    let summary = summarize_recent_tracks(listing, now, 2);
    assert_eq!(summary.len(), 2);
    assert_eq!(summary[0].artist, "Radiohead");
    assert_eq!(summary[0].name, "Paranoid Android");
    assert_eq!(summary[0].play_count, 3);
    assert_eq!(summary[1].artist, "Pink Floyd");
    assert_eq!(summary[1].play_count, 2);
}

#[test]
fn summary_splits_keys_on_the_first_separator() {
    let listing = vec![RecentTrack {
        artist: "A - B".to_string(),
        name: "C".to_string(),
        uts: Some("999000".to_string()),
    }];
    let summary = summarize_recent_tracks(listing, 1_000_000, 10);
    assert_eq!(summary.len(), 1);
    assert_eq!(summary[0].artist, "A");
    assert_eq!(summary[0].name, "B");
}
