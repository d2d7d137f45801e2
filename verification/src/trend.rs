//! The trend derivation over the two newest position samples.
//!
//! The two most recent satellite-position samples, newest first, yield a
//! movement trend: the elapsed time between them, the coordinate readings
//! of each sample, and whether the great-circle displacement is
//! significant. Coordinates arrive as numbers or numeric strings; the
//! selection of the fields and every decision that does not need real
//! arithmetic is made here, while the haversine evaluation on the selected
//! readings happens outside the library and its verdict is handed back in.
use vstd::prelude::*;
use crate::jsonv::JsonVal;
use crate::jsonv::json_get;
use crate::repo::TS_BOUND_MILLIS;

verus! {

/// A coordinate or velocity reading as it stands in the payload: a number
/// with an integral value, any other number as its decimal text, or a
/// string to be read as a number.
pub enum NumCandidate {
    IntVal(i64),
    NumText(String),
    StrText(String),
}

/// The reading a payload field yields, if any.
pub open spec fn candidate_matches(v: JsonVal, key: Seq<char>, c: Option<NumCandidate>) -> bool {
    match json_get(v, key) {
        Some(x) => match x {
            JsonVal::Int(n) => c == Some(NumCandidate::IntVal(n)),
            JsonVal::Num(t) => c == Some(NumCandidate::NumText(t)),
            JsonVal::Str(s) => c == Some(NumCandidate::StrText(s)),
            _ => c is None,
        },
        None => c is None,
    }
}

/// Selects the reading of one payload field.
pub fn num_candidate(v: &JsonVal, key: &String) -> (r: Option<NumCandidate>)
    ensures
        candidate_matches(*v, key@, r),
{
    match v.get(key) {
        Some(x) => match x {
            JsonVal::Int(n) => Some(NumCandidate::IntVal(*n)),
            JsonVal::Num(t) => Some(NumCandidate::NumText(t.clone())),
            JsonVal::Str(s) => Some(NumCandidate::StrText(s.clone())),
            _ => None,
        },
        None => None,
    }
}

/// Everything the trend needs from the two newest samples: their times,
/// the elapsed milliseconds (newer minus older), and the selected
/// coordinate and velocity readings.
pub struct TrendFrame {
    pub from_time_millis: i64,
    pub to_time_millis: i64,
    pub elapsed_millis: i64,
    pub from_lat: Option<NumCandidate>,
    pub from_lon: Option<NumCandidate>,
    pub to_lat: Option<NumCandidate>,
    pub to_lon: Option<NumCandidate>,
    pub velocity: Option<NumCandidate>,
}

/// Builds the trend frame from the newest-first sample list: `None` with
/// fewer than two samples, which is the zeroed trend.
pub fn trend_frame(rows: &Vec<(i64, &JsonVal)>) -> (r: Option<TrendFrame>)
    requires
        forall|k: int|
            0 <= k < rows@.len() ==> -TS_BOUND_MILLIS <= (#[trigger] rows@[k]).0
                <= TS_BOUND_MILLIS,
    ensures
        r is Some <==> rows@.len() >= 2,
        match r {
            Some(f) => {
                &&& f.to_time_millis == rows@[0].0
                &&& f.from_time_millis == rows@[1].0
                &&& f.elapsed_millis == rows@[0].0 - rows@[1].0
                &&& candidate_matches(*rows@[1].1, "latitude"@, f.from_lat)
                &&& candidate_matches(*rows@[1].1, "longitude"@, f.from_lon)
                &&& candidate_matches(*rows@[0].1, "latitude"@, f.to_lat)
                &&& candidate_matches(*rows@[0].1, "longitude"@, f.to_lon)
                &&& candidate_matches(*rows@[0].1, "velocity"@, f.velocity)
            },
            None => true,
        },
{
    if rows.len() < 2 {
        return None;
    }
    let lat_key = String::from_str("latitude");
    let lon_key = String::from_str("longitude");
    let vel_key = String::from_str("velocity");
    let newer = &rows[0];
    let older = &rows[1];
    Some(
        TrendFrame {
            from_time_millis: older.0,
            to_time_millis: newer.0,
            elapsed_millis: newer.0 - older.0,
            from_lat: num_candidate(older.1, &lat_key),
            from_lon: num_candidate(older.1, &lon_key),
            to_lat: num_candidate(newer.1, &lat_key),
            to_lon: num_candidate(newer.1, &lon_key),
            velocity: num_candidate(newer.1, &vel_key),
        },
    )
}

/// When the trend reports movement: two samples exist, all four
/// coordinates read as numbers, and the computed displacement exceeds the
/// significance threshold.
pub open spec fn movement_spec(has_frame: bool, coords_ok: bool, exceeds_threshold: bool) -> bool {
    has_frame && coords_ok && exceeds_threshold
}

/// The movement verdict, from what was computed of the frame.
pub fn movement_decision(has_frame: bool, coords_ok: bool, exceeds_threshold: bool) -> (r: bool)
    ensures
        r == movement_spec(has_frame, coords_ok, exceeds_threshold),
{
    has_frame && coords_ok && exceeds_threshold
}

/// With zero or one stored samples there is no frame, so the trend never
/// reports movement, whatever was computed of coordinates or distance.
pub proof fn lemma_no_movement_without_two_samples(
    n_rows: int,
    coords_ok: bool,
    exceeds_threshold: bool,
)
    requires
        n_rows < 2,
    ensures
        !movement_spec(n_rows >= 2, coords_ok, exceeds_threshold),
{
}

/// The displacement verdict enters the movement verdict positively: with a
/// frame and readable coordinates, movement is reported exactly when the
/// displacement exceeds the threshold.
pub proof fn lemma_movement_tracks_threshold(exceeds_threshold: bool)
    ensures
        movement_spec(true, true, exceeds_threshold) == exceeds_threshold,
{
}

} // verus!
