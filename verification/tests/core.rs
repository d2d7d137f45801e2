use rust_iss::config::Config;
use rust_iss::config::FetchIntervals;
use rust_iss::digits::i64_to_string;
use rust_iss::digits::parse_u32;
use rust_iss::digits::parse_u64;
use rust_iss::digits::u64_to_string;
use rust_iss::errors::ApiError;
use rust_iss::errors::HttpError;
use rust_iss::errors::HttpErrorKind;
use rust_iss::errors::SuccessResponse;
use rust_iss::errors::classify_http;
use rust_iss::jobs::all_jobs;
use rust_iss::jobs::donki_second_step;
use rust_iss::jobs::JobKind;
use rust_iss::lock::LockTable;
use rust_iss::lock::job_lock_key;
use rust_iss::retry::AttemptOutcome;
use rust_iss::retry::RetryResolution;
use rust_iss::retry::resolve_retry;

#[test]
fn renders_unsigned_decimals() {
    assert_eq!(u64_to_string(0), "0");
    assert_eq!(u64_to_string(7), "7");
    assert_eq!(u64_to_string(12345), "12345");
    assert_eq!(u64_to_string(u64::MAX), "18446744073709551615");
}

#[test]
fn renders_signed_decimals() {
    assert_eq!(i64_to_string(0), "0");
    assert_eq!(i64_to_string(-1), "-1");
    assert_eq!(i64_to_string(i64::MIN), "-9223372036854775808");
    assert_eq!(i64_to_string(7665), "7665");
}

#[test]
fn parses_unsigned_decimals() {
    assert_eq!(parse_u64("0"), Some(0));
    assert_eq!(parse_u64("+42"), Some(42));
    assert_eq!(parse_u64("18446744073709551615"), Some(u64::MAX));
    assert_eq!(parse_u64("18446744073709551616"), None);
    assert_eq!(parse_u64(""), None);
    assert_eq!(parse_u64("+"), None);
    assert_eq!(parse_u64("12a"), None);
    assert_eq!(parse_u64("-3"), None);
    assert_eq!(parse_u32("4294967295"), Some(u32::MAX));
    assert_eq!(parse_u32("4294967296"), None);
}

#[test]
fn default_intervals_match_schedule() {
    let iv = FetchIntervals::new();
    assert_eq!(iv.osdr, 600);
    assert_eq!(iv.iss, 120);
    assert_eq!(iv.apod, 43200);
    assert_eq!(iv.neo, 7200);
    assert_eq!(iv.donki, 3600);
    assert_eq!(iv.spacex, 3600);
}

#[test]
fn config_resolves_defaults_and_overrides() {
    let cfg = Config::from_values(
        String::from("postgres://localhost/x"),
        None,
        None,
        None,
        Some(String::from("900")),
        Some(String::from("oops")),
        None,
        None,
        None,
        None,
        Some(String::from("12")),
        Some(String::from("7")),
        None,
    );
    assert_eq!(cfg.database_url, "postgres://localhost/x");
    assert_eq!(
        cfg.nasa_api_url,
        "https://visualization.osdr.nasa.gov/biodata/api/v2/datasets/?format=json"
    );
    assert_eq!(cfg.nasa_api_key, "");
    assert_eq!(cfg.where_iss_url, "https://api.wheretheiss.at/v1/satellites/25544");
    assert_eq!(cfg.fetch_intervals.osdr, 900);
    assert_eq!(cfg.fetch_intervals.iss, 120);
    assert_eq!(cfg.http_timeout_secs, 12);
    assert_eq!(cfg.max_retries, 7);
    assert_eq!(cfg.retry_delay_secs, 2);
}

#[test]
fn error_codes_are_stable() {
    let db = ApiError::Database(String::from("boom"));
    assert_eq!(db.code(), "DATABASE_ERROR");
    assert_eq!(db.public_message(), "Database operation failed");
    let timeout = ApiError::Http(classify_http(true, false, None, String::from("slow")));
    assert_eq!(timeout.code(), "UPSTREAM_TIMEOUT");
    assert_eq!(timeout.public_message(), "External API error: slow");
    let forbidden = ApiError::Http(classify_http(false, false, Some(403), String::from("no")));
    assert_eq!(forbidden.code(), "UPSTREAM_403");
    let missing = ApiError::Http(classify_http(false, false, Some(404), String::from("no")));
    assert_eq!(missing.code(), "UPSTREAM_404");
    let decode = ApiError::Http(classify_http(false, true, None, String::from("bad body")));
    assert_eq!(decode.code(), "UPSTREAM_ERROR");
    assert_eq!(ApiError::Validation(String::from("v")).code(), "VALIDATION_ERROR");
    assert_eq!(ApiError::NotFound(String::from("n")).code(), "NOT_FOUND");
    assert_eq!(ApiError::Internal(String::from("i")).code(), "INTERNAL_ERROR");
}

#[test]
fn error_response_carries_fresh_trace_id() {
    let e = ApiError::NotFound(String::from("no data"));
    let body = e.respond();
    assert!(!body.ok);
    assert_eq!(body.error.code, "NOT_FOUND");
    assert_eq!(body.error.message, "no data");
    assert_eq!(body.error.trace_id.len(), 36);
    let again = e.respond();
    assert_ne!(body.error.trace_id, again.error.trace_id);
}

#[test]
fn success_envelope_keeps_payload() {
    let r = SuccessResponse::new(41i64);
    assert!(r.ok);
    assert_eq!(r.data, 41);
}

#[test]
fn retry_exhausts_on_timeouts() {
    let timeout = || AttemptOutcome::Transport(HttpError {
        kind: HttpErrorKind::Timeout,
        message: String::from("timed out"),
    });
    let outcomes = vec![timeout(), timeout(), timeout()];
    match resolve_retry(outcomes, 2) {
        RetryResolution::Failed { attempts, error } => {
            assert_eq!(attempts, 3);
            match error {
                ApiError::Http(h) => assert!(matches!(h.kind, HttpErrorKind::Timeout)),
                _ => panic!("expected a transport failure"),
            }
        }
        _ => panic!("expected exhaustion"),
    }
}

#[test]
fn retry_stops_at_first_success() {
    let outcomes = vec![
        AttemptOutcome::BadStatus(500),
        AttemptOutcome::Success,
        AttemptOutcome::BadStatus(500),
    ];
    match resolve_retry(outcomes, 2) {
        RetryResolution::Accepted { attempts } => assert_eq!(attempts, 2),
        _ => panic!("expected acceptance"),
    }
}

#[test]
fn retry_reports_only_bad_statuses() {
    let outcomes = vec![AttemptOutcome::BadStatus(500), AttemptOutcome::BadStatus(502)];
    match resolve_retry(outcomes, 1) {
        RetryResolution::Failed { attempts, error } => {
            assert_eq!(attempts, 2);
            match error {
                ApiError::Http(h) => {
                    assert!(matches!(h.kind, HttpErrorKind::OnlyBadStatuses));
                }
                _ => panic!("expected an http failure"),
            }
        }
        _ => panic!("expected exhaustion"),
    }
}

#[test]
fn retry_returns_last_transport_error() {
    let outcomes = vec![
        AttemptOutcome::Transport(HttpError {
            kind: HttpErrorKind::Timeout,
            message: String::from("first"),
        }),
        AttemptOutcome::Transport(HttpError {
            kind: HttpErrorKind::Other,
            message: String::from("second"),
        }),
        AttemptOutcome::BadStatus(500),
    ];
    match resolve_retry(outcomes, 2) {
        RetryResolution::Failed { attempts, error } => {
            assert_eq!(attempts, 3);
            match error {
                ApiError::Http(h) => {
                    assert!(matches!(h.kind, HttpErrorKind::Other));
                    assert_eq!(h.message, "second");
                }
                _ => panic!("expected an http failure"),
            }
        }
        _ => panic!("expected exhaustion"),
    }
}

#[test]
fn lock_key_is_deterministic() {
    assert_eq!(job_lock_key("iss"), job_lock_key("iss"));
    assert_ne!(job_lock_key("iss"), job_lock_key("osdr"));
    assert_ne!(job_lock_key("apod"), job_lock_key("neo"));
}

#[test]
fn lock_admits_one_holder_per_key() {
    let mut table = LockTable::new();
    let iss = job_lock_key("iss");
    let osdr = job_lock_key("osdr");
    assert!(table.try_acquire(iss));
    assert!(!table.try_acquire(iss));
    assert!(table.try_acquire(osdr));
    table.release(iss);
    assert!(table.try_acquire(iss));
}

#[test]
fn schedule_lists_each_job_once_with_its_interval() {
    let jobs = all_jobs();
    assert_eq!(
        jobs,
        vec![
            JobKind::Osdr,
            JobKind::Iss,
            JobKind::Apod,
            JobKind::Neo,
            JobKind::Donki,
            JobKind::Spacex,
        ]
    );
    let names: Vec<String> = jobs.iter().map(|j| j.name()).collect();
    assert_eq!(names, vec!["osdr", "iss", "apod", "neo", "donki", "spacex"]);
    let iv = FetchIntervals::new();
    assert_eq!(JobKind::Iss.interval_secs(&iv), 120);
    assert_eq!(JobKind::Osdr.interval_secs(&iv), 600);
    assert_eq!(JobKind::Apod.interval_secs(&iv), 43200);
    assert_eq!(JobKind::Neo.interval_secs(&iv), 7200);
    assert_eq!(JobKind::Donki.interval_secs(&iv), 3600);
    assert_eq!(JobKind::Spacex.interval_secs(&iv), 3600);
}

#[test]
fn solar_event_pair_aborts_on_first_failure() {
    assert!(donki_second_step(&Ok(())));
    assert!(!donki_second_step(&Err(ApiError::Internal(String::from("down")))));
}
