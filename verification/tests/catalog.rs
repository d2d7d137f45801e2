use rust_iss::jsonv::JsonVal;
use rust_iss::normalize::apply_batch;
use rust_iss::normalize::normalize_batch;
use rust_iss::normalize::sync_catalog;
use rust_iss::normalize::normalize_record;
use rust_iss::normalize::s_pick;
use rust_iss::normalize::t_pick;
use rust_iss::normalize::unwrap_items;
use rust_iss::errors::ApiError;
use rust_iss::repo::CacheRepo;
use rust_iss::repo::IssRepo;
use rust_iss::repo::OsdrRepo;
use rust_iss::source::SourceKind;
use rust_iss::summary::build_summary;

fn obj(fields: Vec<(&str, JsonVal)>) -> JsonVal {
    JsonVal::Obj(fields.into_iter().map(|(k, v)| (String::from(k), v)).collect())
}

fn s(text: &str) -> JsonVal {
    JsonVal::Str(String::from(text))
}

#[test]
fn field_extraction_prefers_dataset_id() {
    let record = obj(vec![("id", s("secondary")), ("dataset_id", s("OSD-42"))]);
    let rec = normalize_record(record);
    assert_eq!(rec.identifier, Some(String::from("OSD-42")));
}

#[test]
fn field_extraction_skips_empty_and_non_text() {
    let record = obj(vec![
        ("title", s("")),
        ("name", JsonVal::Bool(true)),
        ("label", s("Mouse study")),
    ]);
    let rec = normalize_record(record);
    assert_eq!(rec.title, Some(String::from("Mouse study")));
}

#[test]
fn field_extraction_renders_numbers() {
    let record = obj(vec![("id", JsonVal::Int(-17))]);
    let keys = vec![String::from("dataset_id"), String::from("id")];
    assert_eq!(s_pick(&record, &keys), Some(String::from("-17")));
}

#[test]
fn timestamp_extraction_parses_in_order() {
    let keys: Vec<String> = ["updated", "updated_at", "modified", "lastUpdated", "timestamp"]
        .iter()
        .map(|k| String::from(*k))
        .collect();
    let iso = obj(vec![("updated", s("2024-01-01T00:00:00Z"))]);
    assert_eq!(t_pick(&iso, &keys), Some(1_704_067_200_000));
    let plain = obj(vec![("modified", s("2024-01-01 00:02:00"))]);
    assert_eq!(t_pick(&plain, &keys), Some(1_704_067_320_000));
    let epoch = obj(vec![("timestamp", JsonVal::Int(1_704_067_200))]);
    assert_eq!(t_pick(&epoch, &keys), Some(1_704_067_200_000));
    let unparsable = obj(vec![("updated", s("yesterday"))]);
    assert_eq!(t_pick(&unparsable, &keys), None);
    let out_of_range = obj(vec![("timestamp", JsonVal::Int(i64::MAX))]);
    assert!(t_pick(&out_of_range, &keys).is_some());
    let both = obj(vec![
        ("updated", s("2024-01-01T00:00:00Z")),
        ("timestamp", JsonVal::Int(99)),
    ]);
    assert_eq!(t_pick(&both, &keys), Some(1_704_067_200_000));
}

#[test]
fn responses_unwrap_to_record_lists() {
    let bare = JsonVal::Arr(vec![JsonVal::Int(1), JsonVal::Int(2)]);
    assert_eq!(unwrap_items(bare).len(), 2);
    let wrapped = obj(vec![("items", JsonVal::Arr(vec![JsonVal::Int(1)]))]);
    assert_eq!(unwrap_items(wrapped).len(), 1);
    let results = obj(vec![
        ("items", JsonVal::Int(9)),
        ("results", JsonVal::Arr(vec![JsonVal::Int(1), JsonVal::Int(2), JsonVal::Int(3)])),
    ]);
    assert_eq!(unwrap_items(results).len(), 3);
    let singleton = obj(vec![("dataset_id", s("OSD-1"))]);
    assert_eq!(unwrap_items(singleton).len(), 1);
}

#[test]
fn batch_normalization_keeps_order() {
    let response = obj(vec![(
        "items",
        JsonVal::Arr(vec![
            obj(vec![("dataset_id", s("A"))]),
            obj(vec![("dataset_id", s("B"))]),
        ]),
    )]);
    let records = normalize_batch(response);
    assert_eq!(records.len(), 2);
    assert_eq!(records[0].identifier, Some(String::from("A")));
    assert_eq!(records[1].identifier, Some(String::from("B")));
}

#[test]
fn upsert_deduplicates_by_identifier() {
    let mut repo = OsdrRepo::new();
    repo.upsert(
        Some(String::from("OSD-42")),
        Some(String::from("first title")),
        None,
        None,
        s("raw-one"),
        1_000,
    )
    .unwrap();
    repo.upsert(
        Some(String::from("OSD-42")),
        Some(String::from("second title")),
        Some(String::from("live")),
        Some(5_000),
        s("raw-two"),
        2_000,
    )
    .unwrap();
    assert_eq!(repo.count(), 1);
    let rows = repo.list(10).unwrap();
    assert_eq!(rows.len(), 1);
    assert_eq!(rows[0].title, Some(String::from("second title")));
    assert_eq!(rows[0].status, Some(String::from("live")));
    assert_eq!(rows[0].updated_at_millis, Some(5_000));
    assert_eq!(rows[0].id, 1);
}

#[test]
fn upsert_always_inserts_null_identifiers() {
    let mut repo = OsdrRepo::new();
    repo.upsert(None, Some(String::from("one")), None, None, JsonVal::Null, 1_000).unwrap();
    repo.upsert(None, Some(String::from("two")), None, None, JsonVal::Null, 2_000).unwrap();
    assert_eq!(repo.count(), 2);
    let rows = repo.list(10).unwrap();
    assert_eq!(rows.len(), 2);
    assert_eq!(rows[0].title, Some(String::from("two")));
    assert_eq!(rows[1].title, Some(String::from("one")));
}

#[test]
fn listing_respects_limit_and_rejects_negative() {
    let mut repo = OsdrRepo::new();
    for k in 0..5 {
        repo.upsert(None, Some(format!("t{}", k)), None, None, JsonVal::Null, 1_000 + k).unwrap();
    }
    assert_eq!(repo.list(2).unwrap().len(), 2);
    assert_eq!(repo.list(50).unwrap().len(), 5);
    assert!(matches!(repo.list(-1), Err(ApiError::Database(_))));
}

#[test]
fn fetch_log_appends_and_serves_newest() {
    let mut repo = IssRepo::new();
    assert!(repo.get_last().is_none());
    repo.insert(1_000, String::from("https://example.test"), s("p1")).unwrap();
    repo.insert(2_000, String::from("https://example.test"), s("p2")).unwrap();
    let last = repo.get_last().unwrap();
    assert_eq!(last.id, 2);
    assert_eq!(last.fetched_at_millis, 2_000);
    let two = repo.get_last_two();
    assert_eq!(two.len(), 2);
    assert_eq!(two[0].0, 2_000);
    assert_eq!(two[1].0, 1_000);
    let err = repo.insert(i64::MAX, String::from("u"), JsonVal::Null);
    assert!(matches!(err, Err(ApiError::Validation(_))));
    assert_eq!(repo.len(), 2);
}

#[test]
fn cache_serves_latest_per_source() {
    let mut repo = CacheRepo::new();
    repo.insert(SourceKind::Apod, 1_000, s("old")).unwrap();
    repo.insert(SourceKind::Neo, 1_500, s("neo")).unwrap();
    repo.insert(SourceKind::Apod, 2_000, s("new")).unwrap();
    let latest = repo.get_latest(SourceKind::Apod).unwrap();
    assert_eq!(latest.fetched_at_millis, 2_000);
    assert_eq!(latest.id, 3);
    assert!(repo.get_latest(SourceKind::Flr).is_none());
}

#[test]
fn summary_collects_entries_and_count() {
    let r = build_summary(
        Some((1_000, s("apod-payload"))),
        None,
        None,
        None,
        None,
        Some((2_000, s("iss-payload"))),
        7,
    );
    match r {
        JsonVal::Obj(top) => {
            assert_eq!(top.len(), 7);
            assert_eq!(top[0].0, "apod");
            match &top[0].1 {
                JsonVal::Obj(e) => {
                    assert_eq!(e[0].0, "at");
                    assert!(matches!(e[0].1, JsonVal::Int(1_000)));
                    assert_eq!(e[1].0, "payload");
                }
                _ => panic!("expected an entry object"),
            }
            match &top[1].1 {
                JsonVal::Obj(e) => assert!(e.is_empty()),
                _ => panic!("expected an empty placeholder"),
            }
            assert_eq!(top[6].0, "osdr_count");
            assert!(matches!(top[6].1, JsonVal::Int(7)));
        }
        _ => panic!("expected an object"),
    }
}

#[test]
fn sync_applies_a_whole_response() {
    let mut repo = OsdrRepo::new();
    let response = obj(vec![(
        "items",
        JsonVal::Arr(vec![
            obj(vec![("dataset_id", s("OSD-1")), ("title", s("first"))]),
            obj(vec![("dataset_id", s("OSD-2")), ("title", s("other"))]),
            obj(vec![("dataset_id", s("OSD-1")), ("title", s("renamed"))]),
            obj(vec![("note", s("no identifier"))]),
        ]),
    )]);
    sync_catalog(&mut repo, response, 1_000).unwrap();
    assert_eq!(repo.count(), 3);
    let rows = repo.list(10).unwrap();
    let renamed = rows
        .iter()
        .find(|r| r.dataset_id == Some(String::from("OSD-1")))
        .unwrap();
    assert_eq!(renamed.title, Some(String::from("renamed")));
}

#[test]
fn batch_application_preserves_order_of_inserts() {
    let mut repo = OsdrRepo::new();
    let records = normalize_batch(JsonVal::Arr(vec![
        obj(vec![("dataset_id", s("A")), ("title", s("a"))]),
        obj(vec![("dataset_id", s("B")), ("title", s("b"))]),
    ]));
    apply_batch(&mut repo, records, 5_000).unwrap();
    let rows = repo.list(10).unwrap();
    assert_eq!(rows.len(), 2);
    assert_eq!(rows[0].dataset_id, Some(String::from("B")));
    assert_eq!(rows[1].dataset_id, Some(String::from("A")));
}
