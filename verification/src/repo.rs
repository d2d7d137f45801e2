//! The storage layer's rules, as verified table models.
//!
//! Three tables back the engine: an append-only fetch log for satellite
//! position samples, an upsert-by-identifier catalog, and an append-only
//! per-source latest-value cache. Each model states the table's invariant
//! (rows immutable once written, at most one row per non-null identifier,
//! latest means highest id) and its operations carry exact contracts. The
//! relational store outside the library enforces the same rules through
//! its schema and queries.
use vstd::prelude::*;
use crate::errors::ApiError;
use crate::jsonv::JsonVal;
use crate::source::SourceKind;

verus! {

/// Timestamps the models accept, in milliseconds from the epoch: wide
/// enough for any clock reading, narrow enough that differences of two
/// accepted timestamps never overflow.
pub const TS_BOUND_MILLIS: i64 = 10_000_000_000_000_000;

/// The row cap of a model table; a fresh id always fits `i64` below it.
pub const ROW_CAP: usize = 0xFFFF_FFFF;

/// One satellite-position fetch, immutable once written.
pub struct IssLog {
    pub id: i64,
    pub fetched_at_millis: i64,
    pub source_url: String,
    pub payload: JsonVal,
}

/// The append-only satellite-position fetch log.
pub struct IssRepo {
    rows: Vec<IssLog>,
}

impl IssRepo {
    /// The stored rows, oldest first.
    pub closed spec fn rows(&self) -> Seq<IssLog> {
        self.rows@
    }

    /// Ids are the insertion order, from one up; timestamps are in range.
    pub closed spec fn well_formed(&self) -> bool {
        &&& self.rows@.len() <= ROW_CAP
        &&& forall|i: int| 0 <= i < self.rows@.len() ==> (#[trigger] self.rows@[i]).id == i + 1
        &&& forall|i: int|
            0 <= i < self.rows@.len() ==> -TS_BOUND_MILLIS
                <= (#[trigger] self.rows@[i]).fetched_at_millis <= TS_BOUND_MILLIS
    }

    /// An empty log.
    pub fn new() -> (r: IssRepo)
        ensures
            r.well_formed(),
            r.rows() == Seq::<IssLog>::empty(),
    {
        let r = IssRepo { rows: Vec::new() };
        proof {
            assert(r.rows@ =~= Seq::<IssLog>::empty());
        }
        r
    }

    /// Appends one fetch; never touches existing rows. An out-of-range
    /// timestamp is rejected; a full table reports an internal fault.
    pub fn insert(&mut self, fetched_at_millis: i64, source_url: String, payload: JsonVal) -> (r:
        Result<(), ApiError>)
        requires
            old(self).well_formed(),
        ensures
            final(self).well_formed(),
            match r {
                Ok(()) => {
                    &&& -TS_BOUND_MILLIS <= fetched_at_millis <= TS_BOUND_MILLIS
                    &&& old(self).rows().len() < ROW_CAP
                    &&& final(self).rows().len() == old(self).rows().len() + 1
                    &&& final(self).rows().drop_last() == old(self).rows()
                    &&& final(self).rows().last().fetched_at_millis == fetched_at_millis
                    &&& final(self).rows().last().source_url == source_url
                    &&& final(self).rows().last().payload == payload
                    &&& final(self).rows().last().id == old(self).rows().len() + 1
                },
                Err(e) => {
                    &&& final(self).rows() == old(self).rows()
                    &&& (!(-TS_BOUND_MILLIS <= fetched_at_millis <= TS_BOUND_MILLIS) || old(
                        self,
                    ).rows().len() >= ROW_CAP)
                    &&& (e is Validation || e is Internal)
                },
            },
    {
        if fetched_at_millis > TS_BOUND_MILLIS || fetched_at_millis < -TS_BOUND_MILLIS {
            return Err(ApiError::Validation(String::from_str("timestamp out of range")));
        }
        if self.rows.len() >= ROW_CAP {
            return Err(ApiError::Internal(String::from_str("fetch log is full")));
        }
        let id: i64 = (self.rows.len() + 1) as i64;
        self.rows.push(IssLog { id, fetched_at_millis, source_url, payload });
        proof {
            assert(self.rows@.drop_last() =~= old(self).rows@);
        }
        Ok(())
    }

    /// The newest row: the one with the highest id.
    pub fn get_last<'a>(&'a self) -> (r: Option<&'a IssLog>)
        requires
            self.well_formed(),
        ensures
            match r {
                Some(row) => self.rows().len() > 0 && *row == self.rows().last(),
                None => self.rows().len() == 0,
            },
    {
        if self.rows.len() == 0 {
            None
        } else {
            Some(&self.rows[self.rows.len() - 1])
        }
    }

    /// The two newest samples, newest first: their fetch times and payloads.
    pub fn get_last_two<'a>(&'a self) -> (r: Vec<(i64, &'a JsonVal)>)
        requires
            self.well_formed(),
        ensures
            r@.len() == if self.rows().len() < 2 {
                self.rows().len() as int
            } else {
                2
            },
            self.rows().len() >= 1 ==> {
                &&& r@[0].0 == self.rows().last().fetched_at_millis
                &&& *r@[0].1 == self.rows().last().payload
            },
            self.rows().len() >= 2 ==> {
                &&& r@[1].0 == self.rows()[self.rows().len() - 2].fetched_at_millis
                &&& *r@[1].1 == self.rows()[self.rows().len() - 2].payload
            },
    {
        let mut out: Vec<(i64, &'a JsonVal)> = Vec::new();
        let n: usize = self.rows.len();
        if n >= 1 {
            let row = &self.rows[n - 1];
            out.push((row.fetched_at_millis, &row.payload));
        }
        if n >= 2 {
            let row = &self.rows[n - 2];
            out.push((row.fetched_at_millis, &row.payload));
        }
        out
    }

    /// How many samples are stored.
    pub fn len(&self) -> (r: usize)
        ensures
            r == self.rows().len(),
    {
        self.rows.len()
    }
}

/// One catalog row.
pub struct OsdrItem {
    pub id: i64,
    pub dataset_id: Option<String>,
    pub title: Option<String>,
    pub status: Option<String>,
    pub updated_at_millis: Option<i64>,
    pub inserted_at_millis: i64,
    pub raw: JsonVal,
}

/// An optional identifier, as the text the store compares.
pub open spec fn ds_view(o: Option<String>) -> Option<Seq<char>> {
    match o {
        Some(s) => Some(s@),
        None => None,
    }
}

/// The first (and, by the invariant, only) row keyed by `id`.
pub open spec fn find_ds(rows: Seq<OsdrItem>, id: Seq<char>) -> Option<int>
    decreases rows.len(),
{
    if rows.len() == 0 {
        None
    } else if ds_view(rows[0].dataset_id) == Some(id) {
        Some(0)
    } else {
        match find_ds(rows.drop_first(), id) {
            Some(j) => Some(j + 1),
            None => None,
        }
    }
}

/// The insertion time a freshly appended row receives: the given clock
/// reading, never earlier than the last row's insertion time.
pub open spec fn next_inserted_at(rows: Seq<OsdrItem>, now_millis: i64) -> i64 {
    if rows.len() == 0 {
        now_millis
    } else if now_millis < rows.last().inserted_at_millis {
        rows.last().inserted_at_millis
    } else {
        now_millis
    }
}

/// The upsert-by-identifier catalog table.
pub struct OsdrRepo {
    rows: Vec<OsdrItem>,
}

impl OsdrRepo {
    /// The stored rows, in insertion order.
    pub closed spec fn rows(&self) -> Seq<OsdrItem> {
        self.rows@
    }

    /// Ids are the insertion order from one up; at most one row per
    /// non-null identifier; insertion times never decrease.
    pub closed spec fn well_formed(&self) -> bool {
        &&& self.rows@.len() <= ROW_CAP
        &&& forall|i: int| 0 <= i < self.rows@.len() ==> (#[trigger] self.rows@[i]).id == i + 1
        &&& forall|a: int, b: int|
            0 <= a < b < self.rows@.len() && ds_view(self.rows@[a].dataset_id) is Some ==> ds_view(
                self.rows@[a].dataset_id,
            ) != ds_view(self.rows@[b].dataset_id)
        &&& forall|a: int, b: int|
            0 <= a < b < self.rows@.len() ==> (#[trigger] self.rows@[a]).inserted_at_millis
                <= (#[trigger] self.rows@[b]).inserted_at_millis
    }

    /// An empty catalog.
    pub fn new() -> (r: OsdrRepo)
        ensures
            r.well_formed(),
            r.rows() == Seq::<OsdrItem>::empty(),
    {
        let r = OsdrRepo { rows: Vec::new() };
        proof {
            assert(r.rows@ =~= Seq::<OsdrItem>::empty());
        }
        r
    }

    fn position_of_ds(&self, id: &String) -> (r: Option<usize>)
        requires
            self.well_formed(),
        ensures
            match r {
                Some(j) => j < self.rows().len() && find_ds(self.rows(), id@) == Some(j as int),
                None => find_ds(self.rows(), id@) is None,
            },
    {
        let ghost fs = self.rows@;
        let mut j: usize = 0;
        while j < self.rows.len()
            invariant
                j <= fs.len(),
                fs == self.rows@,
                forall|k: int| 0 <= k < j ==> ds_view((#[trigger] fs[k]).dataset_id) != Some(id@),
            decreases fs.len() - j,
        {
            let hit = match &self.rows[j].dataset_id {
                Some(s) => s.eq(id),
                None => false,
            };
            if hit {
                proof {
                    lemma_find_ds_skip(fs, id@, j as int);
                    assert(fs.skip(j as int)[0] == fs[j as int]);
                }
                return Some(j);
            }
            j = j + 1;
        }
        proof {
            lemma_find_ds_skip(fs, id@, fs.len() as int);
        }
        None
    }

    /// The upsert rule: a record with a non-null identifier already present
    /// overwrites that row's title, status, update time and raw payload in
    /// place, keeping its id and insertion time; any other record is
    /// appended as a new row. Null identifiers never deduplicate.
    pub fn upsert(
        &mut self,
        dataset_id: Option<String>,
        title: Option<String>,
        status: Option<String>,
        updated_at_millis: Option<i64>,
        raw: JsonVal,
        now_millis: i64,
    ) -> (r: Result<(), ApiError>)
        requires
            old(self).well_formed(),
        ensures
            final(self).well_formed(),
            match r {
                Ok(()) => {
                    if dataset_id is Some && find_ds(old(self).rows(), dataset_id->0@) is Some {
                        let j = find_ds(old(self).rows(), dataset_id->0@)->0;
                        &&& final(self).rows().len() == old(self).rows().len()
                        &&& forall|k: int|
                            0 <= k < old(self).rows().len() && k != j ==> final(self).rows()[k]
                                == old(self).rows()[k]
                        &&& final(self).rows()[j].id == old(self).rows()[j].id
                        &&& final(self).rows()[j].inserted_at_millis == old(
                            self,
                        ).rows()[j].inserted_at_millis
                        &&& final(self).rows()[j].dataset_id == dataset_id
                        &&& final(self).rows()[j].title == title
                        &&& final(self).rows()[j].status == status
                        &&& final(self).rows()[j].updated_at_millis == updated_at_millis
                        &&& final(self).rows()[j].raw == raw
                    } else {
                        &&& old(self).rows().len() < ROW_CAP
                        &&& final(self).rows().len() == old(self).rows().len() + 1
                        &&& final(self).rows().drop_last() == old(self).rows()
                        &&& final(self).rows().last().dataset_id == dataset_id
                        &&& final(self).rows().last().title == title
                        &&& final(self).rows().last().status == status
                        &&& final(self).rows().last().updated_at_millis == updated_at_millis
                        &&& final(self).rows().last().inserted_at_millis == next_inserted_at(
                            old(self).rows(),
                            now_millis,
                        )
                        &&& final(self).rows().last().raw == raw
                        &&& final(self).rows().last().id == old(self).rows().len() + 1
                    }
                },
                Err(e) => {
                    &&& final(self).rows() == old(self).rows()
                    &&& old(self).rows().len() >= ROW_CAP
                    &&& (dataset_id is None || find_ds(old(self).rows(), dataset_id->0@) is None)
                    &&& e is Internal
                },
            },
    {
        let hit: Option<usize> = match &dataset_id {
            Some(ds) => self.position_of_ds(ds),
            None => None,
        };
        match hit {
            Some(j) => {
                let old_id: i64 = self.rows[j].id;
                let old_inserted: i64 = self.rows[j].inserted_at_millis;
                self.rows[j] = OsdrItem {
                    id: old_id,
                    dataset_id,
                    title,
                    status,
                    updated_at_millis,
                    inserted_at_millis: old_inserted,
                    raw,
                };
                proof {
                    lemma_find_ds_found(old(self).rows@, dataset_id->0@);
                    let pre = old(self).rows@;
                    let post = self.rows@;
                    assert(forall|k: int| 0 <= k < pre.len() && k != j ==> post[k] == pre[k]);
                    assert(ds_view(post[j as int].dataset_id) == Some(dataset_id->0@));
                    assert(ds_view(pre[j as int].dataset_id) == Some(dataset_id->0@));
                    assert(forall|a: int, b: int|
                        0 <= a < b < post.len() && ds_view((#[trigger] post[a]).dataset_id) is Some
                            ==> ds_view(post[a].dataset_id) != ds_view((#[trigger] post[b]).dataset_id));
                    assert(forall|a: int, b: int|
                        0 <= a < b < post.len() ==> (#[trigger] post[a]).inserted_at_millis
                            <= (#[trigger] post[b]).inserted_at_millis);
                }
                Ok(())
            },
            None => {
                if self.rows.len() >= ROW_CAP {
                    return Err(ApiError::Internal(String::from_str("catalog is full")));
                }
                let id: i64 = (self.rows.len() + 1) as i64;
                let last_inserted: i64 = if self.rows.len() > 0 {
                    self.rows[self.rows.len() - 1].inserted_at_millis
                } else {
                    now_millis
                };
                let inserted_at_millis: i64 = if now_millis < last_inserted {
                    last_inserted
                } else {
                    now_millis
                };
                self.rows.push(
                    OsdrItem {
                        id,
                        dataset_id,
                        title,
                        status,
                        updated_at_millis,
                        inserted_at_millis,
                        raw,
                    },
                );
                proof {
                    let pre = old(self).rows@;
                    let post = self.rows@;
                    assert(post.drop_last() =~= pre);
                    assert(forall|k: int| 0 <= k < pre.len() ==> post[k] == pre[k]);
                    if dataset_id is Some {
                        lemma_find_ds_none(pre, dataset_id->0@);
                    }
                    assert(forall|a: int, b: int|
                        0 <= a < b < post.len() && ds_view((#[trigger] post[a]).dataset_id) is Some
                            ==> ds_view(post[a].dataset_id) != ds_view(
                            (#[trigger] post[b]).dataset_id,
                        ));
                    assert(forall|k: int|
                        0 <= k < pre.len() ==> (#[trigger] pre[k]).inserted_at_millis <= pre[
                            pre.len() - 1
                        ].inserted_at_millis);
                    assert(forall|a: int, b: int|
                        0 <= a < b < post.len() ==> (#[trigger] post[a]).inserted_at_millis
                            <= (#[trigger] post[b]).inserted_at_millis);
                }
                Ok(())
            },
        }
    }

    /// Up to `limit` rows, most recently inserted first. A negative limit
    /// is refused by the store.
    pub fn list<'a>(&'a self, limit: i64) -> (r: Result<Vec<&'a OsdrItem>, ApiError>)
        requires
            self.well_formed(),
        ensures
            match r {
                Ok(v) => {
                    &&& limit >= 0
                    &&& v@.len() == if limit < self.rows().len() {
                        limit as int
                    } else {
                        self.rows().len() as int
                    }
                    &&& forall|k: int|
                        0 <= k < v@.len() ==> *(#[trigger] v@[k]) == self.rows()[self.rows().len()
                            - 1 - k]
                },
                Err(e) => limit < 0 && e is Database,
            },
    {
        if limit < 0 {
            return Err(ApiError::Database(String::from_str("LIMIT must not be negative")));
        }
        let mut out: Vec<&'a OsdrItem> = Vec::new();
        let n: usize = self.rows.len();
        let mut k: usize = 0;
        while k < n && (k as u64) < (limit as u64)
            invariant
                0 <= limit,
                k <= n,
                n == self.rows@.len(),
                k as int <= limit as int,
                out@.len() == k,
                forall|m: int| 0 <= m < k ==> *(#[trigger] out@[m]) == self.rows@[n - 1 - m],
            decreases n - k,
        {
            out.push(&self.rows[n - 1 - k]);
            k = k + 1;
        }
        Ok(out)
    }

    /// How many rows the catalog holds.
    pub fn count(&self) -> (r: i64)
        requires
            self.well_formed(),
        ensures
            r == self.rows().len(),
    {
        self.rows.len() as i64
    }
}

proof fn lemma_find_ds_skip(rows: Seq<OsdrItem>, id: Seq<char>, j: int)
    requires
        0 <= j <= rows.len(),
        forall|k: int| 0 <= k < j ==> ds_view((#[trigger] rows[k]).dataset_id) != Some(id),
    ensures
        find_ds(rows, id) == match find_ds(rows.skip(j), id) {
            Some(m) => Some(m + j),
            None => None::<int>,
        },
    decreases j,
{
    if j > 0 {
        assert(rows.drop_first() =~= rows.skip(1));
        lemma_find_ds_skip(rows.skip(1), id, j - 1);
        assert(rows.skip(1).skip(j - 1) =~= rows.skip(j));
    } else {
        assert(rows.skip(0) =~= rows);
    }
}

proof fn lemma_find_ds_none(rows: Seq<OsdrItem>, id: Seq<char>)
    requires
        find_ds(rows, id) is None,
    ensures
        forall|k: int| 0 <= k < rows.len() ==> ds_view((#[trigger] rows[k]).dataset_id) != Some(id),
    decreases rows.len(),
{
    if rows.len() > 0 {
        lemma_find_ds_none(rows.drop_first(), id);
        assert(ds_view(rows[0].dataset_id) != Some(id));
        assert forall|k: int| 0 <= k < rows.len() implies ds_view(
            (#[trigger] rows[k]).dataset_id,
        ) != Some(id) by {
            if k > 0 {
                assert(rows.drop_first()[k - 1] == rows[k]);
                assert(ds_view(rows.drop_first()[k - 1].dataset_id) != Some(id));
            }
        }
    }
}

pub(crate) proof fn lemma_find_ds_found(rows: Seq<OsdrItem>, id: Seq<char>)
    ensures
        match find_ds(rows, id) {
            Some(j) => 0 <= j < rows.len() && ds_view(rows[j].dataset_id) == Some(id),
            None => true,
        },
    decreases rows.len(),
{
    if rows.len() > 0 && ds_view(rows[0].dataset_id) != Some(id) {
        lemma_find_ds_found(rows.drop_first(), id);
        assert(forall|k: int|
            0 <= k < rows.len() - 1 ==> #[trigger] rows.drop_first()[k] == rows[k + 1]);
    }
}

/// `find_ds` is the first match: the found row carries the identifier and
/// no earlier row does.
pub proof fn lemma_find_ds_first(rows: Seq<OsdrItem>, id: Seq<char>)
    ensures
        match find_ds(rows, id) {
            Some(j) => 0 <= j < rows.len() && ds_view(rows[j].dataset_id) == Some(id)
                && forall|m: int| 0 <= m < j ==> ds_view((#[trigger] rows[m]).dataset_id) != Some(id),
            None => true,
        },
    decreases rows.len(),
{
    if rows.len() > 0 && ds_view(rows[0].dataset_id) != Some(id) {
        lemma_find_ds_first(rows.drop_first(), id);
        if find_ds(rows, id) is Some {
            let j = find_ds(rows, id)->0;
            assert(rows.drop_first()[j - 1] == rows[j]);
            assert forall|m: int| 0 <= m < j implies ds_view((#[trigger] rows[m]).dataset_id)
                != Some(id) by {
                if m > 0 {
                    assert(rows.drop_first()[m - 1] == rows[m]);
                }
            }
        }
    }
}

/// The converse: a first match at `j` is what `find_ds` finds.
pub proof fn lemma_find_ds_at(rows: Seq<OsdrItem>, id: Seq<char>, j: int)
    requires
        0 <= j < rows.len(),
        ds_view(rows[j].dataset_id) == Some(id),
        forall|m: int| 0 <= m < j ==> ds_view((#[trigger] rows[m]).dataset_id) != Some(id),
    ensures
        find_ds(rows, id) == Some(j),
    decreases j,
{
    if j > 0 {
        assert(forall|m: int|
            0 <= m < j - 1 ==> ds_view((#[trigger] rows.drop_first()[m]).dataset_id) != Some(id));
        assert(rows.drop_first()[j - 1] == rows[j]);
        lemma_find_ds_at(rows.drop_first(), id, j - 1);
    }
}

/// `find_ds` depends only on the identifier views of the rows.
pub proof fn lemma_find_ds_views(rows1: Seq<OsdrItem>, rows2: Seq<OsdrItem>, id: Seq<char>)
    requires
        rows1.len() == rows2.len(),
        forall|m: int|
            0 <= m < rows1.len() ==> ds_view((#[trigger] rows1[m]).dataset_id) == ds_view(
                rows2[m].dataset_id,
            ),
    ensures
        find_ds(rows1, id) == find_ds(rows2, id),
    decreases rows1.len(),
{
    if rows1.len() > 0 {
        assert(forall|m: int|
            0 <= m < rows1.len() - 1 ==> ds_view(
                (#[trigger] rows1.drop_first()[m]).dataset_id,
            ) == ds_view(rows2.drop_first()[m].dataset_id)) by {
            assert(forall|m: int|
                0 <= m < rows1.len() - 1 ==> #[trigger] rows1.drop_first()[m] == rows1[m + 1]
                    && rows2.drop_first()[m] == rows2[m + 1]);
        }
        lemma_find_ds_views(rows1.drop_first(), rows2.drop_first(), id);
    }
}

/// A row keyed by an identifier exists exactly when some row carries it.
pub proof fn lemma_find_ds_some_iff(rows: Seq<OsdrItem>, id: Seq<char>)
    ensures
        (find_ds(rows, id) is Some) <==> exists|k: int|
            0 <= k < rows.len() && ds_view((#[trigger] rows[k]).dataset_id) == Some(id),
{
    if find_ds(rows, id) is Some {
        lemma_find_ds_found(rows, id);
        let j = find_ds(rows, id)->0;
        assert(ds_view(rows[j].dataset_id) == Some(id));
    } else {
        lemma_find_ds_none(rows, id);
    }
}

/// The catalog upsert law: once a record with a non-null identifier is
/// stored, a later record with the same identifier finds that row, so the
/// upsert overwrites it in place and the table never grows a second row
/// for it; records with no identifier never match and always append.
pub proof fn lemma_upsert_deduplicates(rows: Seq<OsdrItem>, row: OsdrItem, id: Seq<char>)
    requires
        find_ds(rows, id) is None,
        ds_view(row.dataset_id) == Some(id),
    ensures
        find_ds(rows.push(row), id) == Some(rows.len() as int),
    decreases rows.len(),
{
    if rows.len() == 0 {
        assert(rows.push(row)[0] == row);
    } else {
        assert(rows.push(row)[0] == rows[0]);
        assert(rows.push(row).drop_first() =~= rows.drop_first().push(row));
        lemma_upsert_deduplicates(rows.drop_first(), row, id);
    }
}

/// One cached fetch of a non-catalog, non-position feed.
pub struct SpaceCacheRow {
    pub id: i64,
    pub source: SourceKind,
    pub fetched_at_millis: i64,
    pub payload: JsonVal,
}

/// The index of the newest (highest-id) row of a source, if any.
pub open spec fn latest_for(rows: Seq<SpaceCacheRow>, s: SourceKind) -> Option<int>
    decreases rows.len(),
{
    if rows.len() == 0 {
        None
    } else if rows.last().source == s {
        Some(rows.len() - 1)
    } else {
        latest_for(rows.drop_last(), s)
    }
}

/// The append-only per-source latest-value cache.
pub struct CacheRepo {
    rows: Vec<SpaceCacheRow>,
}

impl CacheRepo {
    /// The stored rows, in insertion order.
    pub closed spec fn rows(&self) -> Seq<SpaceCacheRow> {
        self.rows@
    }

    /// Ids are the insertion order, from one up.
    pub closed spec fn well_formed(&self) -> bool {
        &&& self.rows@.len() <= ROW_CAP
        &&& forall|i: int| 0 <= i < self.rows@.len() ==> (#[trigger] self.rows@[i]).id == i + 1
    }

    /// An empty cache.
    pub fn new() -> (r: CacheRepo)
        ensures
            r.well_formed(),
            r.rows() == Seq::<SpaceCacheRow>::empty(),
    {
        let r = CacheRepo { rows: Vec::new() };
        proof {
            assert(r.rows@ =~= Seq::<SpaceCacheRow>::empty());
        }
        r
    }

    /// Appends one fetch for a source; never touches existing rows.
    pub fn insert(&mut self, source: SourceKind, fetched_at_millis: i64, payload: JsonVal) -> (r:
        Result<(), ApiError>)
        requires
            old(self).well_formed(),
        ensures
            final(self).well_formed(),
            match r {
                Ok(()) => {
                    &&& old(self).rows().len() < ROW_CAP
                    &&& final(self).rows().len() == old(self).rows().len() + 1
                    &&& final(self).rows().drop_last() == old(self).rows()
                    &&& final(self).rows().last().source == source
                    &&& final(self).rows().last().fetched_at_millis == fetched_at_millis
                    &&& final(self).rows().last().payload == payload
                    &&& final(self).rows().last().id == old(self).rows().len() + 1
                },
                Err(e) => {
                    &&& final(self).rows() == old(self).rows()
                    &&& old(self).rows().len() >= ROW_CAP
                    &&& e is Internal
                },
            },
    {
        if self.rows.len() >= ROW_CAP {
            return Err(ApiError::Internal(String::from_str("cache is full")));
        }
        let id: i64 = (self.rows.len() + 1) as i64;
        self.rows.push(SpaceCacheRow { id, source, fetched_at_millis, payload });
        proof {
            assert(self.rows@.drop_last() =~= old(self).rows@);
        }
        Ok(())
    }

    /// The newest row of a source: the matching row with the highest id.
    pub fn get_latest<'a>(&'a self, source: SourceKind) -> (r: Option<&'a SpaceCacheRow>)
        requires
            self.well_formed(),
        ensures
            match r {
                Some(row) => latest_for(self.rows(), source) is Some && *row == self.rows()[
                    latest_for(self.rows(), source)->0
                ],
                None => latest_for(self.rows(), source) is None,
            },
    {
        let ghost fs = self.rows@;
        let mut j: usize = self.rows.len();
        proof {
            assert(fs.subrange(0, j as int) =~= fs);
        }
        while j > 0
            invariant
                j <= fs.len(),
                fs == self.rows@,
                latest_for(fs, source) == latest_for(fs.subrange(0, j as int), source),
            decreases j,
        {
            let ghost pre = fs.subrange(0, j as int);
            if self.rows[j - 1].source == source {
                proof {
                    assert(pre.last() == fs[j - 1]);
                    assert(latest_for(pre, source) == Some(j - 1));
                }
                return Some(&self.rows[j - 1]);
            }
            proof {
                assert(pre.last() == fs[j - 1]);
                assert(pre.drop_last() =~= fs.subrange(0, j - 1));
            }
            j = j - 1;
        }
        proof {
            assert(fs.subrange(0, 0).len() == 0);
        }
        None
    }
}

} // verus!
