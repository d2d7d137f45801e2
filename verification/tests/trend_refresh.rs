use rust_iss::config::Config;
use rust_iss::jsonv::JsonVal;
use rust_iss::refresh::parse_refresh_list;
use rust_iss::refresh::split_commas;
use rust_iss::source::SourceKind;
use rust_iss::trend::NumCandidate;
use rust_iss::trend::movement_decision;
use rust_iss::trend::num_candidate;
use rust_iss::trend::trend_frame;
use rust_iss::urls::apod_url;
use rust_iss::urls::donki_cme_url;
use rust_iss::urls::donki_flr_url;
use rust_iss::urls::format_date;
use rust_iss::urls::neo_url;
use rust_iss::urls::osdr_url;
use rust_iss::urls::spacex_url;

fn position_payload(lat: &str, lon: &str, velocity: i64) -> JsonVal {
    JsonVal::Obj(vec![
        (String::from("latitude"), JsonVal::Str(String::from(lat))),
        (String::from("longitude"), JsonVal::Str(String::from(lon))),
        (String::from("velocity"), JsonVal::Int(velocity)),
    ])
}

fn bare_config() -> Config {
    Config::from_values(
        String::from("postgres://localhost/x"),
        None,
        None,
        None,
        None,
        None,
        None,
        None,
        None,
        None,
        None,
        None,
        None,
    )
}

fn keyed_config() -> Config {
    Config::from_values(
        String::from("postgres://localhost/x"),
        Some(String::from("https://example.test/catalog?format=json")),
        Some(String::from("DEMO_KEY")),
        None,
        None,
        None,
        None,
        None,
        None,
        None,
        None,
        None,
        None,
    )
}

#[test]
fn trend_frame_needs_two_samples() {
    let empty: Vec<(i64, &JsonVal)> = Vec::new();
    assert!(trend_frame(&empty).is_none());
    let p = position_payload("10.0", "10.0", 7660);
    let one = vec![(1_704_067_200_000i64, &p)];
    assert!(trend_frame(&one).is_none());
}

#[test]
fn trend_frame_reads_samples_newest_first() {
    let newer = position_payload("10.05", "10.05", 7665);
    let older = position_payload("10.0", "10.0", 7660);
    let rows = vec![(1_704_067_320_000i64, &newer), (1_704_067_200_000i64, &older)];
    let frame = trend_frame(&rows).unwrap();
    assert_eq!(frame.elapsed_millis, 120_000);
    assert_eq!(frame.from_time_millis, 1_704_067_200_000);
    assert_eq!(frame.to_time_millis, 1_704_067_320_000);
    match frame.velocity {
        Some(NumCandidate::IntVal(v)) => assert_eq!(v, 7665),
        _ => panic!("expected the newer sample's velocity"),
    }
    match frame.to_lat {
        Some(NumCandidate::StrText(t)) => assert_eq!(t, "10.05"),
        _ => panic!("expected the textual latitude"),
    }
}

#[test]
fn movement_requires_frame_coordinates_and_distance() {
    assert!(!movement_decision(false, true, true));
    assert!(!movement_decision(true, false, true));
    assert!(!movement_decision(true, true, false));
    assert!(movement_decision(true, true, true));
}

#[test]
fn coordinate_candidates_follow_the_payload() {
    let p = JsonVal::Obj(vec![
        (String::from("latitude"), JsonVal::Num(String::from("51.5"))),
        (String::from("velocity"), JsonVal::Bool(true)),
    ]);
    match num_candidate(&p, &String::from("latitude")) {
        Some(NumCandidate::NumText(t)) => assert_eq!(t, "51.5"),
        _ => panic!("expected the numeric text"),
    }
    assert!(num_candidate(&p, &String::from("velocity")).is_none());
    assert!(num_candidate(&p, &String::from("longitude")).is_none());
}

#[test]
fn splitting_keeps_every_token() {
    let t = |s: &str| String::from(s);
    assert_eq!(split_commas(&t("a,b,c")), vec![t("a"), t("b"), t("c")]);
    assert_eq!(split_commas(&t("")), vec![t("")]);
    assert_eq!(split_commas(&t("a,,b,")), vec![t("a"), t(""), t("b"), t("")]);
    assert_eq!(split_commas(&t("solo")), vec![t("solo")]);
}

#[test]
fn refresh_keeps_known_sources_in_order() {
    let picked = parse_refresh_list(&String::from("apod,spacex"));
    assert_eq!(picked, vec![SourceKind::Apod, SourceKind::Spacex]);
    let names: Vec<String> = picked.iter().map(|s| s.name()).collect();
    assert_eq!(names, vec![String::from("apod"), String::from("spacex")]);
}

#[test]
fn refresh_trims_lowercases_and_drops_unknowns() {
    let picked = parse_refresh_list(&String::from(" APOD , comet,  Neo "));
    assert_eq!(picked, vec![SourceKind::Apod, SourceKind::Neo]);
    let all = parse_refresh_list(&String::from("apod,neo,flr,cme,spacex"));
    assert_eq!(
        all,
        vec![
            SourceKind::Apod,
            SourceKind::Neo,
            SourceKind::Flr,
            SourceKind::Cme,
            SourceKind::Spacex,
        ]
    );
}

#[test]
fn dates_render_zero_padded() {
    assert_eq!(format_date(2024, 1, 1), "2024-01-01");
    assert_eq!(format_date(2024, 12, 31), "2024-12-31");
    assert_eq!(format_date(987, 6, 5), "0987-06-05");
}

#[test]
fn urls_carry_key_and_window() {
    let plain = bare_config();
    let keyed = keyed_config();
    assert_eq!(spacex_url(), "https://api.spacexdata.com/v4/launches/next");
    assert_eq!(
        apod_url(&keyed),
        "https://api.nasa.gov/planetary/apod?thumbs=true&api_key=DEMO_KEY"
    );
    assert_eq!(apod_url(&plain), "https://api.nasa.gov/planetary/apod?thumbs=true");
    assert_eq!(
        osdr_url(&keyed),
        "https://example.test/catalog?format=json&api_key=DEMO_KEY"
    );
    let neo = neo_url(&plain);
    assert!(neo.starts_with("https://api.nasa.gov/neo/rest/v1/feed?start_date="));
    assert!(neo.contains("&end_date="));
    assert!(!neo.contains("&api_key="));
    let flr = donki_flr_url(&keyed);
    assert!(flr.starts_with("https://api.nasa.gov/DONKI/FLR?startDate="));
    assert!(flr.contains("&endDate="));
    assert!(flr.ends_with("&api_key=DEMO_KEY"));
    let cme = donki_cme_url(&plain);
    assert!(cme.starts_with("https://api.nasa.gov/DONKI/CME?startDate="));
}

#[test]
fn rolling_window_spans_the_recent_days() {
    let plain = bare_config();
    let neo = neo_url(&plain);
    let rest = neo.trim_start_matches("https://api.nasa.gov/neo/rest/v1/feed?start_date=");
    let mut parts = rest.split("&end_date=");
    let start = parts.next().unwrap();
    let end = parts.next().unwrap();
    let start_date = chrono::NaiveDate::parse_from_str(start, "%Y-%m-%d").unwrap();
    let end_date = chrono::NaiveDate::parse_from_str(end, "%Y-%m-%d").unwrap();
    assert_eq!(end_date - start_date, chrono::TimeDelta::days(2));
}

#[test]
fn solar_event_window_spans_five_days() {
    let keyed = keyed_config();
    let flr = donki_flr_url(&keyed);
    let rest = flr.trim_start_matches("https://api.nasa.gov/DONKI/FLR?startDate=");
    let rest = rest.trim_end_matches("&api_key=DEMO_KEY");
    let mut parts = rest.split("&endDate=");
    let start = parts.next().unwrap();
    let end = parts.next().unwrap();
    let start_date = chrono::NaiveDate::parse_from_str(start, "%Y-%m-%d").unwrap();
    let end_date = chrono::NaiveDate::parse_from_str(end, "%Y-%m-%d").unwrap();
    assert_eq!(end_date - start_date, chrono::TimeDelta::days(5));
}
