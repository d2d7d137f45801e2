//! The aggregate summary: the latest cached entry of each source — or an
//! empty placeholder — plus the latest position sample and the catalog row
//! count, assembled into one structured value.
use vstd::prelude::*;
use crate::jsonv::JsonVal;

verus! {

/// What a summary entry holds for a latest row: its fetch time under
/// "at" and its payload under "payload", or an empty object when the
/// source has no data yet.
pub open spec fn entry_shape(latest: Option<(i64, JsonVal)>, e: JsonVal) -> bool {
    match e {
        JsonVal::Obj(fs) => match latest {
            Some(row) => {
                &&& fs@.len() == 2
                &&& fs@[0].0@ == "at"@
                &&& fs@[0].1 == JsonVal::Int(row.0)
                &&& fs@[1].0@ == "payload"@
                &&& fs@[1].1 == row.1
            },
            None => fs@.len() == 0,
        },
        _ => false,
    }
}

/// What the whole summary holds: one entry per cached source, the latest
/// position sample, and the catalog row count, in a fixed order.
pub open spec fn summary_shape(
    apod: Option<(i64, JsonVal)>,
    neo: Option<(i64, JsonVal)>,
    flr: Option<(i64, JsonVal)>,
    cme: Option<(i64, JsonVal)>,
    spacex: Option<(i64, JsonVal)>,
    iss: Option<(i64, JsonVal)>,
    osdr_count: i64,
    r: JsonVal,
) -> bool {
    match r {
        JsonVal::Obj(top) => {
            &&& top@.len() == 7
            &&& top@[0].0@ == "apod"@ && entry_shape(apod, top@[0].1)
            &&& top@[1].0@ == "neo"@ && entry_shape(neo, top@[1].1)
            &&& top@[2].0@ == "flr"@ && entry_shape(flr, top@[2].1)
            &&& top@[3].0@ == "cme"@ && entry_shape(cme, top@[3].1)
            &&& top@[4].0@ == "spacex"@ && entry_shape(spacex, top@[4].1)
            &&& top@[5].0@ == "iss"@ && entry_shape(iss, top@[5].1)
            &&& top@[6].0@ == "osdr_count"@ && top@[6].1 == JsonVal::Int(osdr_count)
        },
        _ => false,
    }
}

fn build_entry(latest: Option<(i64, JsonVal)>) -> (e: JsonVal)
    ensures
        entry_shape(latest, e),
{
    match latest {
        Some(row) => {
            let mut fs: Vec<(String, JsonVal)> = Vec::new();
            fs.push((String::from_str("at"), JsonVal::Int(row.0)));
            fs.push((String::from_str("payload"), row.1));
            JsonVal::Obj(fs)
        },
        None => JsonVal::Obj(Vec::new()),
    }
}

/// Assembles the aggregate summary.
pub fn build_summary(
    apod: Option<(i64, JsonVal)>,
    neo: Option<(i64, JsonVal)>,
    flr: Option<(i64, JsonVal)>,
    cme: Option<(i64, JsonVal)>,
    spacex: Option<(i64, JsonVal)>,
    iss: Option<(i64, JsonVal)>,
    osdr_count: i64,
) -> (r: JsonVal)
    ensures
        summary_shape(apod, neo, flr, cme, spacex, iss, osdr_count, r),
{
    let mut top: Vec<(String, JsonVal)> = Vec::new();
    top.push((String::from_str("apod"), build_entry(apod)));
    top.push((String::from_str("neo"), build_entry(neo)));
    top.push((String::from_str("flr"), build_entry(flr)));
    top.push((String::from_str("cme"), build_entry(cme)));
    top.push((String::from_str("spacex"), build_entry(spacex)));
    top.push((String::from_str("iss"), build_entry(iss)));
    top.push((String::from_str("osdr_count"), JsonVal::Int(osdr_count)));
    JsonVal::Obj(top)
}

} // verus!
