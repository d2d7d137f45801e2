//! Building the upstream request URLs: the configured or fixed base, an
//! API key appended when one is set, and for the date-parameterized feeds
//! a rolling window of recent days evaluated against the current date.
use vstd::prelude::*;
use crate::clock::date_minus_days;
use crate::clock::sub_days;
use crate::clock::today_utc;
use crate::config::Config;
use crate::digits::dec_chars;
use crate::digits::u64_to_string;

verus! {

/// A base URL with the API key appended as a query parameter when the key
/// is non-empty.
pub open spec fn keyed(base: Seq<char>, key: Seq<char>) -> Seq<char> {
    if key.len() == 0 {
        base
    } else {
        base + "&api_key="@ + key
    }
}

/// Appends the API key query parameter when a key is configured.
pub fn with_api_key(base: String, key: &String) -> (r: String)
    ensures
        r@ == keyed(base@, key@),
{
    if key.as_str().is_empty() {
        base
    } else {
        let ghost b = base@;
        let step = base.concat("&api_key=");
        let out = step.concat(key.as_str());
        proof {
            assert(out@ =~= keyed(b, key@));
        }
        out
    }
}

/// A calendar component rendered with at least two digits.
pub open spec fn two_chars(n: int) -> Seq<char> {
    if 0 <= n < 10 {
        seq!['0'] + dec_chars(n as nat)
    } else if n >= 10 {
        dec_chars(n as nat)
    } else {
        seq!['-'] + dec_chars((-n) as nat)
    }
}

/// A year rendered with at least four digits.
pub open spec fn year_chars(y: int) -> Seq<char> {
    if y < 0 {
        seq!['-'] + dec_chars((-y) as nat)
    } else if y < 10 {
        seq!['0', '0', '0'] + dec_chars(y as nat)
    } else if y < 100 {
        seq!['0', '0'] + dec_chars(y as nat)
    } else if y < 1000 {
        seq!['0'] + dec_chars(y as nat)
    } else {
        dec_chars(y as nat)
    }
}

/// A date in the year-month-day form the feeds take.
pub open spec fn date_chars(y: int, m: int, d: int) -> Seq<char> {
    year_chars(y) + "-"@ + two_chars(m) + "-"@ + two_chars(d)
}

fn push_two(out: &mut String, n: u8)
    ensures
        final(out)@ == old(out)@ + two_chars(n as int),
{
    if n < 10 {
        out.append("0");
        proof {
            reveal_strlit("0");
        }
    }
    let digits = u64_to_string(n as u64);
    out.append(digits.as_str());
    proof {
        assert(final(out)@ =~= old(out)@ + two_chars(n as int));
    }
}

/// Renders a date in the year-month-day form.
pub fn format_date(y: i32, m: u8, d: u8) -> (r: String)
    ensures
        r@ == date_chars(y as int, m as int, d as int),
{
    let mut out = String::new();
    if y < 0 {
        out.append("-");
        proof {
            reveal_strlit("-");
        }
        let mag: u64 = if y == i32::MIN {
            2147483648u64
        } else {
            (-y) as u64
        };
        let digits = u64_to_string(mag);
        out.append(digits.as_str());
    } else {
        if y < 10 {
            out.append("000");
        } else if y < 100 {
            out.append("00");
        } else if y < 1000 {
            out.append("0");
        }
        proof {
            reveal_strlit("000");
            reveal_strlit("00");
            reveal_strlit("0");
            assert("000"@ =~= seq!['0', '0', '0']);
            assert("00"@ =~= seq!['0', '0']);
            assert("0"@ =~= seq!['0']);
        }
        let digits = u64_to_string(y as u64);
        out.append(digits.as_str());
    }
    proof {
        assert(out@ =~= year_chars(y as int));
    }
    out.append("-");
    push_two(&mut out, m);
    out.append("-");
    push_two(&mut out, d);
    proof {
        assert(out@ =~= date_chars(y as int, m as int, d as int));
    }
    out
}

/// Whether `from` is the date `n` days before `to`; when that earlier
/// date is not representable the window degenerates to `to` itself.
pub open spec fn window_back(from: (i32, u8, u8), to: (i32, u8, u8), n: int) -> bool {
    match date_minus_days(to.0 as int, to.1 as int, to.2 as int, n) {
        Some(d) => d == (from.0 as int, from.1 as int, from.2 as int),
        None => from == to,
    }
}

/// The near-earth-object feed URL for a given window.
pub open spec fn neo_url_text(from: (i32, u8, u8), to: (i32, u8, u8), key: Seq<char>) -> Seq<
    char,
> {
    keyed(
        "https://api.nasa.gov/neo/rest/v1/feed?start_date="@ + date_chars(
            from.0 as int,
            from.1 as int,
            from.2 as int,
        ) + "&end_date="@ + date_chars(to.0 as int, to.1 as int, to.2 as int),
        key,
    )
}

/// Builds the near-earth-object feed URL for a given window.
pub fn neo_url_for(from: (i32, u8, u8), to: (i32, u8, u8), key: &String) -> (r: String)
    ensures
        r@ == neo_url_text(from, to, key@),
{
    let mut base = String::from_str("https://api.nasa.gov/neo/rest/v1/feed?start_date=");
    let f = format_date(from.0, from.1, from.2);
    base.append(f.as_str());
    base.append("&end_date=");
    let t = format_date(to.0, to.1, to.2);
    base.append(t.as_str());
    proof {
        assert(base@ =~= "https://api.nasa.gov/neo/rest/v1/feed?start_date="@ + date_chars(
            from.0 as int,
            from.1 as int,
            from.2 as int,
        ) + "&end_date="@ + date_chars(to.0 as int, to.1 as int, to.2 as int));
    }
    with_api_key(base, key)
}

/// Builds the near-earth-object feed URL over the rolling two-day window
/// ending today; an unrepresentable window start degenerates to today.
pub fn neo_url(cfg: &Config) -> (r: String)
    ensures
        exists|from: (i32, u8, u8), to: (i32, u8, u8)|
            r@ == #[trigger] neo_url_text(from, to, cfg.nasa_api_key@) && window_back(from, to, 2),
{
    let today = today_utc();
    let from = match sub_days(today.0, today.1, today.2, 2) {
        Some(t) => t,
        None => today,
    };
    let r = neo_url_for(from, today, &cfg.nasa_api_key);
    proof {
        assert(r@ == neo_url_text(from, today, cfg.nasa_api_key@));
        assert(window_back(from, today, 2));
    }
    r
}

/// A solar-event feed URL for a given window: the base names the event
/// kind, the window bounds follow.
pub open spec fn donki_url_text(
    base: Seq<char>,
    from: (i32, u8, u8),
    to: (i32, u8, u8),
    key: Seq<char>,
) -> Seq<char> {
    keyed(
        base + date_chars(from.0 as int, from.1 as int, from.2 as int) + "&endDate="@ + date_chars(
            to.0 as int,
            to.1 as int,
            to.2 as int,
        ),
        key,
    )
}

fn donki_url_for(base: String, from: (i32, u8, u8), to: (i32, u8, u8), key: &String) -> (r: String)
    ensures
        r@ == donki_url_text(base@, from, to, key@),
{
    let ghost b = base@;
    let mut out = base;
    let f = format_date(from.0, from.1, from.2);
    out.append(f.as_str());
    out.append("&endDate=");
    let t = format_date(to.0, to.1, to.2);
    out.append(t.as_str());
    proof {
        assert(out@ =~= b + date_chars(from.0 as int, from.1 as int, from.2 as int) + "&endDate="@
            + date_chars(to.0 as int, to.1 as int, to.2 as int));
    }
    with_api_key(out, key)
}

/// Builds the solar-flare feed URL over the rolling five-day window
/// ending today; an unrepresentable window start degenerates to today.
pub fn donki_flr_url(cfg: &Config) -> (r: String)
    ensures
        exists|from: (i32, u8, u8), to: (i32, u8, u8)|
            r@ == #[trigger] donki_url_text(
                "https://api.nasa.gov/DONKI/FLR?startDate="@,
                from,
                to,
                cfg.nasa_api_key@,
            ) && window_back(from, to, 5),
{
    let today = today_utc();
    let from = match sub_days(today.0, today.1, today.2, 5) {
        Some(t) => t,
        None => today,
    };
    let base = String::from_str("https://api.nasa.gov/DONKI/FLR?startDate=");
    let r = donki_url_for(base, from, today, &cfg.nasa_api_key);
    proof {
        assert(r@ == donki_url_text(
            "https://api.nasa.gov/DONKI/FLR?startDate="@,
            from,
            today,
            cfg.nasa_api_key@,
        ));
        assert(window_back(from, today, 5));
    }
    r
}

/// Builds the coronal-mass-ejection feed URL over the rolling five-day
/// window ending today; an unrepresentable window start degenerates to
/// today.
pub fn donki_cme_url(cfg: &Config) -> (r: String)
    ensures
        exists|from: (i32, u8, u8), to: (i32, u8, u8)|
            r@ == #[trigger] donki_url_text(
                "https://api.nasa.gov/DONKI/CME?startDate="@,
                from,
                to,
                cfg.nasa_api_key@,
            ) && window_back(from, to, 5),
{
    let today = today_utc();
    let from = match sub_days(today.0, today.1, today.2, 5) {
        Some(t) => t,
        None => today,
    };
    let base = String::from_str("https://api.nasa.gov/DONKI/CME?startDate=");
    let r = donki_url_for(base, from, today, &cfg.nasa_api_key);
    proof {
        assert(r@ == donki_url_text(
            "https://api.nasa.gov/DONKI/CME?startDate="@,
            from,
            today,
            cfg.nasa_api_key@,
        ));
        assert(window_back(from, today, 5));
    }
    r
}

/// Builds the datasets-catalog URL: the configured base with the key
/// appended when one is set.
pub fn osdr_url(cfg: &Config) -> (r: String)
    ensures
        r@ == keyed(cfg.nasa_api_url@, cfg.nasa_api_key@),
{
    with_api_key(cfg.nasa_api_url.clone(), &cfg.nasa_api_key)
}

/// Builds the astronomy-image URL: the fixed endpoint with the key
/// appended when one is set.
pub fn apod_url(cfg: &Config) -> (r: String)
    ensures
        r@ == keyed("https://api.nasa.gov/planetary/apod?thumbs=true"@, cfg.nasa_api_key@),
{
    with_api_key(
        String::from_str("https://api.nasa.gov/planetary/apod?thumbs=true"),
        &cfg.nasa_api_key,
    )
}

/// The fixed next-launch endpoint.
pub fn spacex_url() -> (r: String)
    ensures
        r@ == "https://api.spacexdata.com/v4/launches/next"@,
{
    String::from_str("https://api.spacexdata.com/v4/launches/next")
}

} // verus!
