//! The normalizer: reconciling heterogeneous upstream catalog records.
//!
//! A catalog response may be a bare list, an object wrapping the list under
//! a known key, or a single record. From each record four concepts are
//! extracted by trying an ordered list of candidate field names and taking
//! the first usable match: an identifier, a title, a status, and an update
//! timestamp (parsed as a full timestamp text, then as a fixed date-time
//! pattern, then as a whole-second epoch number).
use vstd::prelude::*;
use vstd::string::StrSliceExecFns;
use crate::clock::datetime_text_millis;
use crate::clock::epoch_single_millis;
use crate::clock::naive_text_millis;
use crate::clock::now_millis;
use crate::clock::parse_datetime_utc_millis;
use crate::clock::parse_naive_utc_millis;
use crate::clock::epoch_seconds_to_millis;
use crate::digits::int_chars;
use crate::digits::i64_to_string;
use crate::jsonv::JsonVal;
use crate::jsonv::json_get;
use crate::jsonv::obj_lookup;
use crate::jsonv::lemma_obj_lookup_skip;
use crate::errors::ApiError;
use crate::repo::OsdrRepo;
use crate::repo::ds_view;
use crate::repo::OsdrItem;
use crate::repo::ROW_CAP;
use crate::repo::find_ds;
use crate::repo::lemma_find_ds_at;
use crate::repo::lemma_find_ds_first;
use crate::repo::lemma_find_ds_found;
use crate::repo::lemma_find_ds_some_iff;
use crate::repo::lemma_find_ds_views;
use crate::repo::next_inserted_at;

verus! {

/// The views of a list of candidate field names.
pub open spec fn views_of(keys: Seq<String>) -> Seq<Seq<char>> {
    keys.map_values(|s: String| s@)
}

/// Whether string extraction passes over this key: the field is absent,
/// or holds neither a non-empty string nor a number.
pub open spec fn s_key_passes(v: JsonVal, key: Seq<char>) -> bool {
    match json_get(v, key) {
        Some(x) => match x {
            JsonVal::Str(s) => s@.len() == 0,
            JsonVal::Int(_) => false,
            JsonVal::Num(_) => false,
            _ => true,
        },
        None => true,
    }
}

/// The text a non-passing key yields: a non-empty string as itself, a
/// number as its decimal text.
pub open spec fn s_key_value(v: JsonVal, key: Seq<char>) -> Seq<char> {
    match json_get(v, key) {
        Some(x) => match x {
            JsonVal::Str(s) => s@,
            JsonVal::Int(n) => int_chars(n as int),
            JsonVal::Num(t) => t@,
            _ => Seq::empty(),
        },
        None => Seq::empty(),
    }
}

/// First-match-wins string extraction over an ordered candidate list.
pub open spec fn s_pick_spec(v: JsonVal, keys: Seq<Seq<char>>) -> Option<Seq<char>>
    decreases keys.len(),
{
    if keys.len() == 0 {
        None
    } else if s_key_passes(v, keys[0]) {
        s_pick_spec(v, keys.drop_first())
    } else {
        Some(s_key_value(v, keys[0]))
    }
}

/// Whether timestamp extraction passes over this key: the field is absent,
/// holds an unparseable string, or holds neither a string nor an integral
/// number.
pub open spec fn t_key_passes(v: JsonVal, key: Seq<char>) -> bool {
    match json_get(v, key) {
        Some(x) => match x {
            JsonVal::Str(s) => datetime_text_millis(s@) is None && naive_text_millis(
                s@,
                "%Y-%m-%d %H:%M:%S"@,
            ) is None,
            JsonVal::Int(_) => false,
            _ => true,
        },
        None => true,
    }
}

/// The timestamp a non-passing key yields, in milliseconds: a parsed
/// string exactly; an integral number via the epoch mapping, where `None`
/// stands for an out-of-range epoch that falls back to the current time.
pub open spec fn t_key_value(v: JsonVal, key: Seq<char>) -> Option<int> {
    match json_get(v, key) {
        Some(x) => match x {
            JsonVal::Str(s) => if datetime_text_millis(s@) is Some {
                Some(datetime_text_millis(s@)->0)
            } else {
                Some(naive_text_millis(s@, "%Y-%m-%d %H:%M:%S"@)->0)
            },
            JsonVal::Int(n) => epoch_single_millis(n as int),
            _ => None,
        },
        None => None,
    }
}

/// First-match-wins timestamp extraction: `None` when every key passes;
/// `Some(Some(m))` for an exact result; `Some(None)` when the chosen key
/// held an out-of-range epoch and the current time is substituted.
pub open spec fn t_pick_spec(v: JsonVal, keys: Seq<Seq<char>>) -> Option<Option<int>>
    decreases keys.len(),
{
    if keys.len() == 0 {
        None
    } else if t_key_passes(v, keys[0]) {
        t_pick_spec(v, keys.drop_first())
    } else {
        Some(t_key_value(v, keys[0]))
    }
}

proof fn lemma_s_pick_skip(v: JsonVal, keys: Seq<Seq<char>>, j: int)
    requires
        0 <= j <= keys.len(),
        forall|k: int| 0 <= k < j ==> s_key_passes(v, #[trigger] keys[k]),
    ensures
        s_pick_spec(v, keys) == s_pick_spec(v, keys.skip(j)),
    decreases j,
{
    if j > 0 {
        assert(keys.drop_first() =~= keys.skip(1));
        lemma_s_pick_skip(v, keys.skip(1), j - 1);
        assert(keys.skip(1).skip(j - 1) =~= keys.skip(j));
    } else {
        assert(keys.skip(0) =~= keys);
    }
}

proof fn lemma_t_pick_skip(v: JsonVal, keys: Seq<Seq<char>>, j: int)
    requires
        0 <= j <= keys.len(),
        forall|k: int| 0 <= k < j ==> t_key_passes(v, #[trigger] keys[k]),
    ensures
        t_pick_spec(v, keys) == t_pick_spec(v, keys.skip(j)),
    decreases j,
{
    if j > 0 {
        assert(keys.drop_first() =~= keys.skip(1));
        lemma_t_pick_skip(v, keys.skip(1), j - 1);
        assert(keys.skip(1).skip(j - 1) =~= keys.skip(j));
    } else {
        assert(keys.skip(0) =~= keys);
    }
}

/// Extracts the first present, usable text among the candidate fields:
/// a non-empty string as it stands, a number as its decimal text.
pub fn s_pick(v: &JsonVal, keys: &Vec<String>) -> (r: Option<String>)
    ensures
        match r {
            Some(s) => s_pick_spec(*v, views_of(keys@)) == Some(s@),
            None => s_pick_spec(*v, views_of(keys@)) is None,
        },
{
    let ghost kv = views_of(keys@);
    let mut j: usize = 0;
    while j < keys.len()
        invariant
            j <= keys@.len(),
            kv == views_of(keys@),
            kv.len() == keys@.len(),
            forall|k: int| 0 <= k < keys@.len() ==> #[trigger] kv[k] == keys@[k]@,
            forall|k: int| 0 <= k < j ==> s_key_passes(*v, #[trigger] kv[k]),
        decreases keys@.len() - j,
    {
        proof {
            lemma_s_pick_skip(*v, kv, j as int);
            assert(kv.skip(j as int)[0] == kv[j as int]);
        }
        match v.get(&keys[j]) {
            Some(x) => match x {
                JsonVal::Str(s) => {
                    if s.as_str().unicode_len() > 0 {
                        return Some(s.clone());
                    }
                },
                JsonVal::Int(n) => {
                    return Some(i64_to_string(*n));
                },
                JsonVal::Num(t) => {
                    return Some(t.clone());
                },
                _ => {},
            },
            None => {},
        }
        j = j + 1;
    }
    proof {
        lemma_s_pick_skip(*v, kv, kv.len() as int);
    }
    None
}

/// Extracts the first usable timestamp among the candidate fields, in
/// milliseconds: a string parsed as a full timestamp and then against the
/// fixed date-time pattern; an integral number taken as epoch seconds,
/// substituting the current time when it is out of range.
pub fn t_pick(v: &JsonVal, keys: &Vec<String>) -> (r: Option<i64>)
    ensures
        match t_pick_spec(*v, views_of(keys@)) {
            None => r is None,
            Some(opt) => match opt {
                Some(m) => r is Some && r->0 as int == m,
                None => r is Some,
            },
        },
{
    let ghost kv = views_of(keys@);
    let mut j: usize = 0;
    while j < keys.len()
        invariant
            j <= keys@.len(),
            kv == views_of(keys@),
            kv.len() == keys@.len(),
            forall|k: int| 0 <= k < keys@.len() ==> #[trigger] kv[k] == keys@[k]@,
            forall|k: int| 0 <= k < j ==> t_key_passes(*v, #[trigger] kv[k]),
        decreases keys@.len() - j,
    {
        proof {
            lemma_t_pick_skip(*v, kv, j as int);
            assert(kv.skip(j as int)[0] == kv[j as int]);
        }
        match v.get(&keys[j]) {
            Some(x) => match x {
                JsonVal::Str(s) => {
                    match parse_datetime_utc_millis(s.as_str()) {
                        Some(m) => {
                            return Some(m);
                        },
                        None => {},
                    }
                    match parse_naive_utc_millis(s.as_str(), "%Y-%m-%d %H:%M:%S") {
                        Some(m) => {
                            return Some(m);
                        },
                        None => {},
                    }
                },
                JsonVal::Int(n) => {
                    match epoch_seconds_to_millis(*n) {
                        Some(m) => {
                            return Some(m);
                        },
                        None => {
                            return Some(now_millis());
                        },
                    }
                },
                _ => {},
            },
            None => {},
        }
        j = j + 1;
    }
    proof {
        lemma_t_pick_skip(*v, kv, kv.len() as int);
    }
    None
}

/// The candidate fields an identifier is read from, in order.
pub open spec fn id_keys_spec() -> Seq<Seq<char>> {
    seq!["dataset_id"@, "id"@, "uuid"@, "studyId"@, "accession"@, "osdr_id"@]
}

/// The candidate fields a title is read from, in order.
pub open spec fn title_keys_spec() -> Seq<Seq<char>> {
    seq!["title"@, "name"@, "label"@]
}

/// The candidate fields a status is read from, in order.
pub open spec fn status_keys_spec() -> Seq<Seq<char>> {
    seq!["status"@, "state"@, "lifecycle"@]
}

/// The candidate fields an update timestamp is read from, in order.
pub open spec fn updated_keys_spec() -> Seq<Seq<char>> {
    seq!["updated"@, "updated_at"@, "modified"@, "lastUpdated"@, "timestamp"@]
}

fn id_keys() -> (r: Vec<String>)
    ensures
        views_of(r@) =~= id_keys_spec(),
{
    let mut v: Vec<String> = Vec::new();
    v.push(String::from_str("dataset_id"));
    v.push(String::from_str("id"));
    v.push(String::from_str("uuid"));
    v.push(String::from_str("studyId"));
    v.push(String::from_str("accession"));
    v.push(String::from_str("osdr_id"));
    v
}

fn title_keys() -> (r: Vec<String>)
    ensures
        views_of(r@) =~= title_keys_spec(),
{
    let mut v: Vec<String> = Vec::new();
    v.push(String::from_str("title"));
    v.push(String::from_str("name"));
    v.push(String::from_str("label"));
    v
}

fn status_keys() -> (r: Vec<String>)
    ensures
        views_of(r@) =~= status_keys_spec(),
{
    let mut v: Vec<String> = Vec::new();
    v.push(String::from_str("status"));
    v.push(String::from_str("state"));
    v.push(String::from_str("lifecycle"));
    v
}

fn updated_keys() -> (r: Vec<String>)
    ensures
        views_of(r@) =~= updated_keys_spec(),
{
    let mut v: Vec<String> = Vec::new();
    v.push(String::from_str("updated"));
    v.push(String::from_str("updated_at"));
    v.push(String::from_str("modified"));
    v.push(String::from_str("lastUpdated"));
    v.push(String::from_str("timestamp"));
    v
}

/// The field-extraction order law: a record holding a usable
/// "dataset_id" takes its identifier from that field, whatever other
/// candidate fields it also holds — the first match wins.
pub proof fn lemma_identifier_prefers_dataset_id(v: JsonVal, s: String)
    requires
        json_get(v, "dataset_id"@) == Some(JsonVal::Str(s)),
        s@.len() > 0,
    ensures
        s_pick_spec(v, id_keys_spec()) == Some(s@),
{
    assert(id_keys_spec()[0] == "dataset_id"@);
    assert(!s_key_passes(v, "dataset_id"@));
    assert(s_key_value(v, "dataset_id"@) == s@);
}

/// The records a catalog response stands for: a bare list as itself, a
/// wrapped list under "items" or "results", anything else as a singleton.
pub open spec fn unwrap_items_spec(v: JsonVal) -> Seq<JsonVal> {
    match v {
        JsonVal::Arr(a) => a@,
        _ => match json_get(v, "items"@) {
            Some(JsonVal::Arr(a)) => a@,
            _ => match json_get(v, "results"@) {
                Some(JsonVal::Arr(a)) => a@,
                _ => seq![v],
            },
        },
    }
}

fn position_of_key(fields: &Vec<(String, JsonVal)>, key: &String) -> (r: Option<usize>)
    ensures
        match r {
            Some(j) => j < fields@.len() && obj_lookup(fields@, key@) == Some(fields@[j as int].1),
            None => obj_lookup(fields@, key@) is None,
        },
{
    let mut j: usize = 0;
    while j < fields.len()
        invariant
            j <= fields@.len(),
            forall|k: int| 0 <= k < j ==> (#[trigger] fields@[k].0)@ != key@,
        decreases fields@.len() - j,
    {
        if fields[j].0.eq(key) {
            proof {
                lemma_obj_lookup_skip(fields@, key@, j as int);
                assert(fields@.skip(j as int)[0] == fields@[j as int]);
            }
            return Some(j);
        }
        j = j + 1;
    }
    proof {
        lemma_obj_lookup_skip(fields@, key@, fields@.len() as int);
    }
    None
}

/// Splits a catalog response into its records.
pub fn unwrap_items(v: JsonVal) -> (r: Vec<JsonVal>)
    ensures
        r@ == unwrap_items_spec(v),
{
    let items_key = String::from_str("items");
    let results_key = String::from_str("results");
    let shape: u8 = {
        let from_items = match v.get(&items_key) {
            Some(x) => x.as_array().is_some(),
            None => false,
        };
        let from_results = match v.get(&results_key) {
            Some(x) => x.as_array().is_some(),
            None => false,
        };
        match &v {
            JsonVal::Arr(_) => 0,
            _ => {
                if from_items {
                    1
                } else if from_results {
                    2
                } else {
                    3
                }
            },
        }
    };
    match v {
        JsonVal::Arr(a) => a,
        JsonVal::Obj(mut fields) => {
            if shape == 1 || shape == 2 {
                let key = if shape == 1 {
                    items_key
                } else {
                    results_key
                };
                match position_of_key(&fields, &key) {
                    Some(j) => {
                        let pair = fields.remove(j);
                        match pair.1 {
                            JsonVal::Arr(a) => a,
                            _ => {
                                // unreachable: the shape check saw an array here
                                proof {
                                    assert(false);
                                }
                                Vec::new()
                            },
                        }
                    },
                    None => {
                        // unreachable: the shape check found this field
                        proof {
                            assert(false);
                        }
                        Vec::new()
                    },
                }
            } else {
                let mut out: Vec<JsonVal> = Vec::new();
                out.push(JsonVal::Obj(fields));
                proof {
                    assert(out@ =~= seq![v]);
                }
                out
            }
        },
        other => {
            let mut out: Vec<JsonVal> = Vec::new();
            out.push(other);
            proof {
                assert(out@ =~= seq![v]);
            }
            out
        },
    }
}

/// One normalized catalog record, ready to upsert.
pub struct CatalogRecord {
    pub identifier: Option<String>,
    pub title: Option<String>,
    pub status: Option<String>,
    pub updated_at_millis: Option<i64>,
    pub raw: JsonVal,
}

/// What a normalized record must hold for its source record: each concept
/// is the first-match extraction, the update time allowing the clock
/// substitute for out-of-range epochs, and the raw payload is the record
/// itself.
pub open spec fn record_normalized(item: JsonVal, rec: CatalogRecord) -> bool {
    &&& ds_view(rec.identifier) == s_pick_spec(item, id_keys_spec())
    &&& ds_view(rec.title) == s_pick_spec(item, title_keys_spec())
    &&& ds_view(rec.status) == s_pick_spec(item, status_keys_spec())
    &&& match t_pick_spec(item, updated_keys_spec()) {
        None => rec.updated_at_millis is None,
        Some(opt) => match opt {
            Some(m) => rec.updated_at_millis is Some && rec.updated_at_millis->0 as int == m,
            None => rec.updated_at_millis is Some,
        },
    }
    &&& rec.raw == item
}

/// Normalizes one record.
pub fn normalize_record(item: JsonVal) -> (rec: CatalogRecord)
    ensures
        record_normalized(item, rec),
{
    let identifier = s_pick(&item, &id_keys());
    let title = s_pick(&item, &title_keys());
    let status = s_pick(&item, &status_keys());
    let updated_at_millis = t_pick(&item, &updated_keys());
    CatalogRecord { identifier, title, status, updated_at_millis, raw: item }
}

/// Normalizes a whole catalog response into its records, in order.
pub fn normalize_batch(response: JsonVal) -> (out: Vec<CatalogRecord>)
    ensures
        out@.len() == unwrap_items_spec(response).len(),
        forall|k: int|
            0 <= k < out@.len() ==> record_normalized(
                unwrap_items_spec(response)[k],
                #[trigger] out@[k],
            ),
{
    let ghost items_spec = unwrap_items_spec(response);
    let mut items = unwrap_items(response);
    let mut out: Vec<CatalogRecord> = Vec::new();
    proof {
        assert(items@ =~= items_spec);
    }
    while items.len() > 0
        invariant
            out@.len() + items@.len() == items_spec.len(),
            forall|k: int| 0 <= k < items@.len() ==> #[trigger] items@[k] == items_spec[out@.len() + k],
            forall|k: int|
                0 <= k < out@.len() ==> record_normalized(items_spec[k], #[trigger] out@[k]),
        decreases items@.len(),
    {
        let item = items.remove(0);
        let rec = normalize_record(item);
        out.push(rec);
    }
    out
}

/// What one upsert of a normalized record does to the catalog rows: a
/// record whose identifier is already keyed overwrites that row's title,
/// status, update time and raw payload in place; any other record is
/// appended with a fresh id.
pub open spec fn upsert_result(rows: Seq<OsdrItem>, rec: CatalogRecord, now_millis: i64) -> Seq<
    OsdrItem,
> {
    if rec.identifier is Some && find_ds(rows, rec.identifier->0@) is Some {
        let j = find_ds(rows, rec.identifier->0@)->0;
        rows.update(
            j,
            OsdrItem {
                id: rows[j].id,
                dataset_id: rec.identifier,
                title: rec.title,
                status: rec.status,
                updated_at_millis: rec.updated_at_millis,
                inserted_at_millis: rows[j].inserted_at_millis,
                raw: rec.raw,
            },
        )
    } else {
        rows.push(
            OsdrItem {
                id: (rows.len() + 1) as i64,
                dataset_id: rec.identifier,
                title: rec.title,
                status: rec.status,
                updated_at_millis: rec.updated_at_millis,
                inserted_at_millis: next_inserted_at(rows, now_millis),
                raw: rec.raw,
            },
        )
    }
}

/// A whole batch folded over the upsert rule, first record first.
pub open spec fn batch_result(rows: Seq<OsdrItem>, recs: Seq<CatalogRecord>, now_millis: i64) -> Seq<
    OsdrItem,
>
    decreases recs.len(),
{
    if recs.len() == 0 {
        rows
    } else {
        batch_result(upsert_result(rows, recs[0], now_millis), recs.drop_first(), now_millis)
    }
}

proof fn lemma_batch_take_step(rows: Seq<OsdrItem>, recs: Seq<CatalogRecord>, now_millis: i64, k: int)
    requires
        0 <= k < recs.len(),
    ensures
        batch_result(rows, recs.take(k + 1), now_millis) == upsert_result(
            batch_result(rows, recs.take(k), now_millis),
            recs[k],
            now_millis,
        ),
    decreases k,
{
    if k == 0 {
        assert(recs.take(1)[0] == recs[0]);
        assert(recs.take(1).drop_first().len() == 0);
        let r1 = upsert_result(rows, recs.take(1)[0], now_millis);
        assert(batch_result(rows, recs.take(1), now_millis) == batch_result(
            r1,
            recs.take(1).drop_first(),
            now_millis,
        ));
        assert(batch_result(r1, recs.take(1).drop_first(), now_millis) == r1);
        assert(batch_result(rows, recs.take(0), now_millis) == rows);
    } else {
        let rows1 = upsert_result(rows, recs[0], now_millis);
        let d = recs.drop_first();
        assert(recs.take(k + 1)[0] == recs[0]);
        assert(recs.take(k + 1).drop_first() == d.take(k));
        assert(batch_result(rows, recs.take(k + 1), now_millis) == batch_result(
            rows1,
            d.take(k),
            now_millis,
        ));
        assert(recs.take(k)[0] == recs[0]);
        assert(recs.take(k).drop_first() == d.take(k - 1));
        assert(batch_result(rows, recs.take(k), now_millis) == batch_result(
            rows1,
            d.take(k - 1),
            now_millis,
        ));
        lemma_batch_take_step(rows1, d, now_millis, k - 1);
        assert(d[k - 1] == recs[k]);
    }
}

proof fn lemma_upsert_writes(rows: Seq<OsdrItem>, rec: CatalogRecord, now_millis: i64)
    requires
        rec.identifier is Some,
    ensures
        ({
            let out = upsert_result(rows, rec, now_millis);
            let id = rec.identifier->0@;
            &&& find_ds(out, id) is Some
            &&& out[find_ds(out, id)->0].dataset_id == rec.identifier
            &&& out[find_ds(out, id)->0].title == rec.title
            &&& out[find_ds(out, id)->0].status == rec.status
            &&& out[find_ds(out, id)->0].updated_at_millis == rec.updated_at_millis
            &&& out[find_ds(out, id)->0].raw == rec.raw
        }),
{
    let id = rec.identifier->0@;
    let out = upsert_result(rows, rec, now_millis);
    if find_ds(rows, id) is Some {
        let j = find_ds(rows, id)->0;
        lemma_find_ds_first(rows, id);
        assert(ds_view(out[j].dataset_id) == Some(id));
        assert(forall|m: int| 0 <= m < j ==> out[m] == #[trigger] rows[m]);
        lemma_find_ds_at(out, id, j);
    } else {
        lemma_find_ds_some_iff(rows, id);
        assert(forall|m: int| 0 <= m < rows.len() ==> out[m] == #[trigger] rows[m]);
        assert(ds_view(out[rows.len() as int].dataset_id) == Some(id));
        lemma_find_ds_at(out, id, rows.len() as int);
    }
}

proof fn lemma_upsert_preserves(
    rows: Seq<OsdrItem>,
    rec: CatalogRecord,
    now_millis: i64,
    id: Seq<char>,
    j: int,
)
    requires
        find_ds(rows, id) == Some(j),
        ds_view(rec.identifier) != Some(id),
    ensures
        ({
            let out = upsert_result(rows, rec, now_millis);
            &&& find_ds(out, id) == Some(j)
            &&& 0 <= j < out.len()
            &&& out[j] == rows[j]
        }),
{
    lemma_find_ds_first(rows, id);
    let out = upsert_result(rows, rec, now_millis);
    if rec.identifier is Some && find_ds(rows, rec.identifier->0@) is Some {
        let j2 = find_ds(rows, rec.identifier->0@)->0;
        lemma_find_ds_first(rows, rec.identifier->0@);
        assert(ds_view(rows[j2].dataset_id) == ds_view(rec.identifier));
        assert(j2 != j);
        assert(forall|m: int|
            0 <= m < rows.len() ==> ds_view((#[trigger] out[m]).dataset_id) == ds_view(
                rows[m].dataset_id,
            ));
        lemma_find_ds_views(out, rows, id);
        assert(out[j] == rows[j]);
    } else {
        assert(forall|m: int| 0 <= m < rows.len() ==> out[m] == #[trigger] rows[m]);
        lemma_find_ds_at(out, id, j);
    }
}

proof fn lemma_fold_preserves(
    rows: Seq<OsdrItem>,
    recs: Seq<CatalogRecord>,
    now_millis: i64,
    id: Seq<char>,
    j: int,
)
    requires
        find_ds(rows, id) == Some(j),
        forall|m: int| 0 <= m < recs.len() ==> ds_view((#[trigger] recs[m]).identifier) != Some(id),
    ensures
        ({
            let out = batch_result(rows, recs, now_millis);
            &&& find_ds(out, id) == Some(j)
            &&& 0 <= j < out.len()
            &&& out[j] == rows[j]
        }),
    decreases recs.len(),
{
    lemma_find_ds_first(rows, id);
    if recs.len() > 0 {
        lemma_upsert_preserves(rows, recs[0], now_millis, id, j);
        assert(forall|m: int|
            0 <= m < recs.len() - 1 ==> ds_view(
                (#[trigger] recs.drop_first()[m]).identifier,
            ) != Some(id)) by {
            assert(forall|m: int|
                0 <= m < recs.len() - 1 ==> #[trigger] recs.drop_first()[m] == recs[m + 1]);
        }
        lemma_fold_preserves(upsert_result(rows, recs[0], now_millis), recs.drop_first(), now_millis, id, j);
    }
}

/// The last-writer law of a batch: the row keyed by a record's identifier
/// carries, after the fold, the title, status, update time and raw payload
/// of the last record in the batch with that identifier.
pub proof fn lemma_batch_last_writer(
    rows: Seq<OsdrItem>,
    recs: Seq<CatalogRecord>,
    now_millis: i64,
    k: int,
)
    requires
        0 <= k < recs.len(),
        recs[k].identifier is Some,
        forall|m: int|
            k < m < recs.len() ==> ds_view((#[trigger] recs[m]).identifier) != ds_view(
                recs[k].identifier,
            ),
    ensures
        ({
            let out = batch_result(rows, recs, now_millis);
            let id = recs[k].identifier->0@;
            &&& find_ds(out, id) is Some
            &&& out[find_ds(out, id)->0].dataset_id == recs[k].identifier
            &&& out[find_ds(out, id)->0].title == recs[k].title
            &&& out[find_ds(out, id)->0].status == recs[k].status
            &&& out[find_ds(out, id)->0].updated_at_millis == recs[k].updated_at_millis
            &&& out[find_ds(out, id)->0].raw == recs[k].raw
        }),
    decreases k,
{
    let mid = upsert_result(rows, recs[0], now_millis);
    if k == 0 {
        lemma_upsert_writes(rows, recs[0], now_millis);
        let id = recs[0].identifier->0@;
        let j = find_ds(mid, id)->0;
        assert(forall|m: int|
            0 <= m < recs.len() - 1 ==> ds_view(
                (#[trigger] recs.drop_first()[m]).identifier,
            ) != Some(id)) by {
            assert(forall|m: int|
                0 <= m < recs.len() - 1 ==> #[trigger] recs.drop_first()[m] == recs[m + 1]);
        }
        lemma_fold_preserves(mid, recs.drop_first(), now_millis, id, j);
    } else {
        assert(recs.drop_first()[k - 1] == recs[k]);
        assert(forall|m: int|
            k - 1 < m < recs.len() - 1 ==> ds_view(
                (#[trigger] recs.drop_first()[m]).identifier,
            ) != ds_view(recs[k].identifier)) by {
            assert(forall|m: int|
                0 <= m < recs.len() - 1 ==> #[trigger] recs.drop_first()[m] == recs[m + 1]);
        }
        lemma_batch_last_writer(mid, recs.drop_first(), now_millis, k - 1);
    }
}

/// Applies a batch of normalized records to the catalog under the upsert
/// rule, in order: on success the table is exactly the fold of the batch,
/// and every record that carried an identifier has a row keyed by it. A
/// storage fault (only possible when an append meets the row cap) aborts
/// the batch and is surfaced, leaving the records before the fault applied
/// and those after it untouched.
pub fn apply_batch(repo: &mut OsdrRepo, records: Vec<CatalogRecord>, now_millis: i64) -> (r:
    Result<(), ApiError>)
    requires
        old(repo).well_formed(),
    ensures
        final(repo).well_formed(),
        match r {
            Ok(()) => {
                &&& final(repo).rows() == batch_result(old(repo).rows(), records@, now_millis)
                &&& forall|k: int|
                    0 <= k < records@.len() && (#[trigger] records@[k]).identifier is Some
                        ==> find_ds(final(repo).rows(), records@[k].identifier->0@) is Some
            },
            Err(e) => {
                &&& e is Internal
                &&& exists|k: int|
                    {
                        &&& 0 <= k < records@.len()
                        &&& final(repo).rows() == #[trigger] batch_result(
                            old(repo).rows(),
                            records@.take(k),
                            now_millis,
                        )
                        &&& final(repo).rows().len() >= ROW_CAP
                    }
            },
        },
{
    let ghost all = records@;
    let mut rest = records;
    while rest.len() > 0
        invariant
            repo.well_formed(),
            rest@.len() <= all.len(),
            all == records@,
            repo.rows() == batch_result(
                old(repo).rows(),
                all.take(all.len() - rest@.len()),
                now_millis,
            ),
            forall|k: int|
                0 <= k < rest@.len() ==> #[trigger] rest@[k] == all[all.len() - rest@.len() + k],
            forall|k: int|
                0 <= k < all.len() - rest@.len() && (#[trigger] all[k]).identifier is Some
                    ==> exists|m: int|
                    0 <= m < repo.rows().len() && ds_view(
                        (#[trigger] repo.rows()[m]).dataset_id,
                    ) == Some(all[k].identifier->0@),
        decreases rest@.len(),
    {
        let ghost pre_rows = repo.rows();
        let ghost done = all.len() - rest@.len();
        let rec = rest.remove(0);
        let ghost grec = rec;
        let ghost had_id = rec.identifier is Some;
        let ghost rec_id: Seq<char> = if rec.identifier is Some {
            rec.identifier->0@
        } else {
            Seq::empty()
        };
        match repo.upsert(
            rec.identifier,
            rec.title,
            rec.status,
            rec.updated_at_millis,
            rec.raw,
            now_millis,
        ) {
            Ok(()) => {
                proof {
                    let post_rows = repo.rows();
                    if had_id && find_ds(pre_rows, rec_id) is Some {
                        let j = find_ds(pre_rows, rec_id)->0;
                        assert(forall|m: int|
                            0 <= m < post_rows.len() && m != j ==> post_rows[m] == pre_rows[m]);
                        lemma_find_ds_found(pre_rows, rec_id);
                        assert(ds_view(pre_rows[j].dataset_id) == Some(rec_id));
                        assert(ds_view(post_rows[j].dataset_id) == Some(rec_id));
                        assert(forall|m: int|
                            0 <= m < post_rows.len() ==> ds_view(
                                (#[trigger] post_rows[m]).dataset_id,
                            ) == ds_view(pre_rows[m].dataset_id));
                        assert(post_rows =~= upsert_result(pre_rows, grec, now_millis));
                    } else {
                        assert(forall|m: int|
                            0 <= m < pre_rows.len() ==> #[trigger] post_rows[m] == pre_rows[m]);
                        if had_id {
                            assert(ds_view(post_rows[post_rows.len() - 1].dataset_id) == Some(
                                rec_id,
                            ));
                        }
                        assert(post_rows =~= upsert_result(pre_rows, grec, now_millis));
                    }
                    assert(all[done] == grec);
                    lemma_batch_take_step(old(repo).rows(), all, now_millis, done);
                    assert(all.take(done) =~= all.take(all.len() - (rest@.len() + 1)));
                    assert(repo.rows() == batch_result(
                        old(repo).rows(),
                        all.take(done + 1),
                        now_millis,
                    ));
                }
            },
            Err(e) => {
                proof {
                    assert(repo.rows() == batch_result(
                        old(repo).rows(),
                        all.take(done),
                        now_millis,
                    ));
                    assert(repo.rows().len() >= ROW_CAP);
                    assert(0 <= done < records@.len());
                }
                return Err(e);
            },
        }
    }
    proof {
        assert(all.take(all.len() as int) =~= all);
        assert forall|k: int|
            0 <= k < all.len() && (#[trigger] all[k]).identifier is Some implies find_ds(
            repo.rows(),
            all[k].identifier->0@,
        ) is Some by {
            lemma_find_ds_some_iff(repo.rows(), all[k].identifier->0@);
        }
    }
    Ok(())
}

/// The whole catalog-sync step after the fetch: the response is split into
/// records, each is normalized, and the batch is upserted in order. On
/// success the table is exactly the fold of a normalization of every
/// record, and every record whose identifier extraction yields a value has
/// a row keyed by it; a storage fault aborts and is surfaced to the caller.
pub fn sync_catalog(repo: &mut OsdrRepo, response: JsonVal, now_millis: i64) -> (r: Result<
    (),
    ApiError,
>)
    requires
        old(repo).well_formed(),
    ensures
        final(repo).well_formed(),
        match r {
            Ok(()) => {
                &&& forall|k: int|
                    0 <= k < unwrap_items_spec(response).len() && s_pick_spec(
                        #[trigger] unwrap_items_spec(response)[k],
                        id_keys_spec(),
                    ) is Some ==> find_ds(
                        final(repo).rows(),
                        s_pick_spec(unwrap_items_spec(response)[k], id_keys_spec())->0,
                    ) is Some
                &&& exists|recs: Seq<CatalogRecord>|
                    {
                        &&& recs.len() == unwrap_items_spec(response).len()
                        &&& forall|k: int|
                            0 <= k < recs.len() ==> record_normalized(
                                unwrap_items_spec(response)[k],
                                #[trigger] recs[k],
                            )
                        &&& final(repo).rows() == #[trigger] batch_result(
                            old(repo).rows(),
                            recs,
                            now_millis,
                        )
                    }
            },
            Err(e) => e is Internal,
        },
{
    let records = normalize_batch(response);
    let ghost recs = records@;
    let r = apply_batch(repo, records, now_millis);
    proof {
        if r is Ok {
            assert(repo.rows() == batch_result(old(repo).rows(), recs, now_millis));
            assert forall|k: int|
                0 <= k < unwrap_items_spec(response).len() && s_pick_spec(
                    #[trigger] unwrap_items_spec(response)[k],
                    id_keys_spec(),
                ) is Some implies find_ds(
                repo.rows(),
                s_pick_spec(unwrap_items_spec(response)[k], id_keys_spec())->0,
            ) is Some by {
                assert(record_normalized(unwrap_items_spec(response)[k], recs[k]));
                assert(ds_view(recs[k].identifier) == s_pick_spec(
                    unwrap_items_spec(response)[k],
                    id_keys_spec(),
                ));
                assert(recs[k].identifier is Some);
                assert(recs[k].identifier->0@ == s_pick_spec(
                    unwrap_items_spec(response)[k],
                    id_keys_spec(),
                )->0);
            }
        }
    }
    r
}

} // verus!
