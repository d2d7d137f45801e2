//! The configuration surface: per-source endpoints and key, polling
//! intervals, and the fetch client's timeout and retry settings, all with
//! defaults so that only the storage connection string is required.
//! Reading the process environment happens outside the library; the raw
//! values are handed in and resolved here.
use vstd::prelude::*;
use crate::digits::digits_value;
use crate::digits::is_unsigned_literal;
use crate::digits::parse_u32;
use crate::digits::parse_u64;
use crate::digits::unsigned_body;

verus! {

/// The polling interval of each job, in seconds.
#[derive(Clone)]
pub struct FetchIntervals {
    pub osdr: u64,
    pub iss: u64,
    pub apod: u64,
    pub neo: u64,
    pub donki: u64,
    pub spacex: u64,
}

impl FetchIntervals {
    /// The default schedule.
    pub fn new() -> (r: FetchIntervals)
        ensures
            r.osdr == 600,
            r.iss == 120,
            r.apod == 43200,
            r.neo == 7200,
            r.donki == 3600,
            r.spacex == 3600,
    {
        FetchIntervals { osdr: 600, iss: 120, apod: 43200, neo: 7200, donki: 3600, spacex: 3600 }
    }
}

/// The whole configuration of the service.
#[derive(Clone)]
pub struct Config {
    pub database_url: String,
    pub nasa_api_url: String,
    pub nasa_api_key: String,
    pub where_iss_url: String,
    pub fetch_intervals: FetchIntervals,
    pub http_timeout_secs: u64,
    pub max_retries: u32,
    pub retry_delay_secs: u64,
}

/// An override resolved against its default: the override must be a
/// well-formed unsigned decimal, else the default stands.
pub open spec fn u64_override(o: Option<Seq<char>>, d: u64) -> u64 {
    match o {
        Some(s) => if is_unsigned_literal(s, u64::MAX as int) {
            digits_value(unsigned_body(s)) as u64
        } else {
            d
        },
        None => d,
    }
}

/// As `u64_override`, within `u32` range.
pub open spec fn u32_override(o: Option<Seq<char>>, d: u32) -> u32 {
    match o {
        Some(s) => if is_unsigned_literal(s, u32::MAX as int) {
            digits_value(unsigned_body(s)) as u32
        } else {
            d
        },
        None => d,
    }
}

/// The view of an optional raw setting.
pub open spec fn raw_view(o: Option<String>) -> Option<Seq<char>> {
    match o {
        Some(s) => Some(s@),
        None => None,
    }
}

/// Resolves one numeric setting against its default.
pub fn env_u64(o: Option<String>, d: u64) -> (r: u64)
    ensures
        r == u64_override(raw_view(o), d),
{
    match o {
        Some(s) => match parse_u64(s.as_str()) {
            Some(v) => v,
            None => d,
        },
        None => d,
    }
}

/// Resolves one narrow numeric setting against its default.
pub fn env_u32(o: Option<String>, d: u32) -> (r: u32)
    ensures
        r == u32_override(raw_view(o), d),
{
    match o {
        Some(s) => match parse_u32(s.as_str()) {
            Some(v) => v,
            None => d,
        },
        None => d,
    }
}

/// A string setting resolved against its default.
pub open spec fn text_or(o: Option<String>, d: Seq<char>, r: String) -> bool {
    match o {
        Some(s) => r == s,
        None => r@ == d,
    }
}

impl Config {
    /// Resolves the whole configuration from raw setting values: the
    /// storage connection string is required, endpoints default to the
    /// fixed public ones, the key defaults to empty, and every numeric
    /// setting falls back to its default unless a well-formed decimal
    /// overrides it.
    pub fn from_values(
        database_url: String,
        nasa_api_url: Option<String>,
        nasa_api_key: Option<String>,
        where_iss_url: Option<String>,
        osdr_secs: Option<String>,
        iss_secs: Option<String>,
        apod_secs: Option<String>,
        neo_secs: Option<String>,
        donki_secs: Option<String>,
        spacex_secs: Option<String>,
        http_timeout_secs: Option<String>,
        max_retries: Option<String>,
        retry_delay_secs: Option<String>,
    ) -> (r: Config)
        ensures
            r.database_url == database_url,
            text_or(
                nasa_api_url,
                "https://visualization.osdr.nasa.gov/biodata/api/v2/datasets/?format=json"@,
                r.nasa_api_url,
            ),
            text_or(nasa_api_key, Seq::<char>::empty(), r.nasa_api_key),
            text_or(where_iss_url, "https://api.wheretheiss.at/v1/satellites/25544"@, r.where_iss_url),
            r.fetch_intervals.osdr == u64_override(raw_view(osdr_secs), 600),
            r.fetch_intervals.iss == u64_override(raw_view(iss_secs), 120),
            r.fetch_intervals.apod == u64_override(raw_view(apod_secs), 43200),
            r.fetch_intervals.neo == u64_override(raw_view(neo_secs), 7200),
            r.fetch_intervals.donki == u64_override(raw_view(donki_secs), 3600),
            r.fetch_intervals.spacex == u64_override(raw_view(spacex_secs), 3600),
            r.http_timeout_secs == u64_override(raw_view(http_timeout_secs), 30),
            r.max_retries == u32_override(raw_view(max_retries), 3),
            r.retry_delay_secs == u64_override(raw_view(retry_delay_secs), 2),
    {
        let nasa_api_url = match nasa_api_url {
            Some(s) => s,
            None => String::from_str(
                "https://visualization.osdr.nasa.gov/biodata/api/v2/datasets/?format=json",
            ),
        };
        let nasa_api_key = match nasa_api_key {
            Some(s) => s,
            None => String::new(),
        };
        let where_iss_url = match where_iss_url {
            Some(s) => s,
            None => String::from_str("https://api.wheretheiss.at/v1/satellites/25544"),
        };
        Config {
            database_url,
            nasa_api_url,
            nasa_api_key,
            where_iss_url,
            fetch_intervals: FetchIntervals {
                osdr: env_u64(osdr_secs, 600),
                iss: env_u64(iss_secs, 120),
                apod: env_u64(apod_secs, 43200),
                neo: env_u64(neo_secs, 7200),
                donki: env_u64(donki_secs, 3600),
                spacex: env_u64(spacex_secs, 3600),
            },
            http_timeout_secs: env_u64(http_timeout_secs, 30),
            max_retries: env_u32(max_retries, 3),
            retry_delay_secs: env_u64(retry_delay_secs, 2),
        }
    }
}

} // verus!
