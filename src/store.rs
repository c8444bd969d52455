//! Persistence semantics: idempotent upserts keyed on the external
//! identifier, suppression of empty download bundles, and an in-memory store
//! that follows them.

use vstd::prelude::*;
use crate::crawl::INITIAL_PAGE;
use crate::model::{CatalogRecord, DownloadVariant};

verus! {

/// The download variants of one catalog item, as stored.
pub struct DownloadBundle {
    pub imdb_id: String,
    pub slug: String,
    /// Time of the write, in milliseconds since the Unix epoch.
    pub last_updated_ms: i64,
    pub variants: Vec<DownloadVariant>,
    pub source: String,
}

/// A stored document with a natural key.
pub trait Keyed {
    spec fn key(&self) -> Seq<char>;

    fn key_str(&self) -> (r: &str)
        ensures
            r@ == self.key(),
    ;
}

impl Keyed for CatalogRecord {
    open spec fn key(&self) -> Seq<char> {
        self.imdb_id@
    }

    fn key_str(&self) -> (r: &str) {
        self.imdb_id.as_str()
    }
}

impl Keyed for DownloadBundle {
    open spec fn key(&self) -> Seq<char> {
        self.imdb_id@
    }

    fn key_str(&self) -> (r: &str) {
        self.imdb_id.as_str()
    }
}

fn same_key(a: &str, b: &str) -> (r: bool)
    ensures
        r == (a@ == b@),
{
    let n = a.unicode_len();
    if n != b.unicode_len() {
        return false;
    }
    let mut i: usize = 0;
    while i < n
        invariant
            n == a@.len(),
            n == b@.len(),
            i <= n,
            forall|j: int| 0 <= j < i ==> a@[j] == b@[j],
        decreases n - i,
    {
        if a.get_char(i) != b.get_char(i) {
            return false;
        }
        i = i + 1;
    }
    assert(a@ =~= b@);
    true
}

/// A collection of documents keyed on their natural key; writing a document
/// replaces the one with the same key.
pub struct Table<T: Keyed> {
    docs: Vec<T>,
    contents: Ghost<Map<Seq<char>, T>>,
}

impl<T: Keyed> Table<T> {
    /// The documents by key.
    pub closed spec fn view(&self) -> Map<Seq<char>, T> {
        self.contents@
    }

    pub closed spec fn wf(&self) -> bool {
        &&& forall|i: int, j: int|
            0 <= i < j < self.docs@.len() ==> self.docs@[i].key() != self.docs@[j].key()
        &&& forall|i: int|
            0 <= i < self.docs@.len() ==> #[trigger] self.contents@.contains_key(
                self.docs@[i].key(),
            ) && self.contents@[self.docs@[i].key()] == self.docs@[i]
        &&& forall|k: Seq<char>|
            #[trigger] self.contents@.contains_key(k) ==> exists|i: int|
                0 <= i < self.docs@.len() && self.docs@[i].key() == k
    }

    /// An empty table.
    pub fn new() -> (r: Self)
        ensures
            r.wf(),
            r.view() == Map::<Seq<char>, T>::empty(),
    {
        Table { docs: Vec::new(), contents: Ghost(Map::empty()) }
    }

    /// Number of stored documents.
    pub fn len(&self) -> (r: usize)
        requires
            self.wf(),
        ensures
            r == self.view().len(),
    {
        proof {
            self.lemma_len();
        }
        self.docs.len()
    }

    proof fn lemma_len(&self)
        requires
            self.wf(),
        ensures
            self.docs@.len() == self.contents@.len(),
    {
        let keys = self.docs@.map_values(|d: T| d.key());
        assert forall|i: int, j: int| 0 <= i < j < keys.len() implies keys[i] != keys[j] by {}
        keys.unique_seq_to_set();
        assert(keys.to_set() =~= self.contents@.dom()) by {
            assert forall|k: Seq<char>| keys.to_set().contains(k) implies self.contents@.dom().contains(k) by {
                let i = choose|i: int| 0 <= i < keys.len() && keys[i] == k;
                assert(self.contents@.contains_key(self.docs@[i].key()));
            }
            assert forall|k: Seq<char>| self.contents@.dom().contains(k) implies keys.to_set().contains(k) by {
                let i = choose|i: int| 0 <= i < self.docs@.len() && self.docs@[i].key() == k;
                assert(keys[i] == k);
            }
        }
    }

    /// The document stored under `key`, if any.
    pub fn get(&self, key: &str) -> (r: Option<&T>)
        requires
            self.wf(),
        ensures
            r matches Some(d) ==> self.view().contains_key(key@) && self.view()[key@] == *d,
            r is None ==> !self.view().contains_key(key@),
    {
        let n = self.docs.len();
        let mut i: usize = 0;
        while i < n
            invariant
                n == self.docs@.len(),
                i <= n,
                self.wf(),
                forall|j: int| 0 <= j < i ==> self.docs@[j].key() != key@,
            decreases n - i,
        {
            if same_key(self.docs[i].key_str(), key) {
                return Some(&self.docs[i]);
            }
            i = i + 1;
        }
        proof {
            if self.contents@.contains_key(key@) {
                let j = choose|j: int| 0 <= j < self.docs@.len() && self.docs@[j].key() == key@;
            }
        }
        None
    }

    /// Inserts `d`, replacing the document with the same key if there is one.
    pub fn upsert(&mut self, d: T)
        requires
            old(self).wf(),
        ensures
            final(self).wf(),
            final(self).view() == old(self).view().insert(d.key(), d),
    {
        let ghost k = d.key();
        let n = self.docs.len();
        let mut i: usize = 0;
        while i < n
            invariant
                n == self.docs@.len(),
                i <= n,
                self == old(self),
                old(self).wf(),
                k == d.key(),
                forall|j: int| 0 <= j < i ==> self.docs@[j].key() != k,
            decreases n - i,
        {
            let found = same_key(self.docs[i].key_str(), d.key_str());
            if found {
                let ghost before = self.docs@;
                assert(before[i as int].key() == k);
                self.contents = Ghost(self.contents@.insert(k, d));
                self.docs.set(i, d);
                assert forall|kk: Seq<char>| #[trigger] self.contents@.contains_key(kk) implies exists|j: int|
                    0 <= j < self.docs@.len() && self.docs@[j].key() == kk by {
                    if kk != k {
                        assert(old(self).contents@.contains_key(kk));
                        let j = choose|j: int| 0 <= j < before.len() && before[j].key() == kk;
                        assert(j != i);
                        assert(self.docs@[j].key() == kk);
                    } else {
                        assert(self.docs@[i as int].key() == kk);
                    }
                }
                assert forall|j: int| 0 <= j < self.docs@.len() implies #[trigger] self.contents@.contains_key(
                    self.docs@[j].key(),
                ) && self.contents@[self.docs@[j].key()] == self.docs@[j] by {
                    if j != i {
                        assert(before[j].key() != k);
                        assert(old(self).contents@.contains_key(before[j].key()));
                    }
                }
                assert forall|a: int, b: int|
                    0 <= a < b < self.docs@.len() implies self.docs@[a].key() != self.docs@[b].key() by {
                    if a != i && b != i {
                        assert(before[a].key() != before[b].key());
                    }
                }
                return;
            }
            i = i + 1;
        }
        let ghost before = self.docs@;
        self.contents = Ghost(self.contents@.insert(k, d));
        self.docs.push(d);
        assert forall|kk: Seq<char>| #[trigger] self.contents@.contains_key(kk) implies exists|j: int|
            0 <= j < self.docs@.len() && self.docs@[j].key() == kk by {
            if kk != k {
                assert(old(self).contents@.contains_key(kk));
                let j = choose|j: int| 0 <= j < before.len() && before[j].key() == kk;
                assert(self.docs@[j].key() == kk);
            } else {
                assert(self.docs@[n as int].key() == kk);
            }
        }
    }
}


/// The bundle written for an item's variants: `None` when there are none,
/// since an empty bundle is never stored.
pub open spec fn bundle_spec(
    imdb_id: Seq<char>,
    slug: Seq<char>,
    variants: Seq<DownloadVariant>,
    now_ms: i64,
    source: Seq<char>,
    b: Option<DownloadBundle>,
) -> bool {
    match b {
        None => variants.len() == 0,
        Some(b) => {
            &&& variants.len() > 0
            &&& b.imdb_id@ == imdb_id
            &&& b.slug@ == slug
            &&& b.last_updated_ms == now_ms
            &&& b.variants@ == variants
            &&& b.source@ == source
        },
    }
}

/// Assembles the bundle of an item's download variants, or `None` when
/// there are none.
pub fn bundle_for(
    imdb_id: &str,
    slug: &str,
    variants: Vec<DownloadVariant>,
    now_ms: i64,
    source: &str,
) -> (r: Option<DownloadBundle>)
    ensures
        bundle_spec(imdb_id@, slug@, variants@, now_ms, source@, r),
{
    if variants.len() == 0 {
        None
    } else {
        Some(DownloadBundle {
            imdb_id: imdb_id.to_owned(),
            slug: slug.to_owned(),
            last_updated_ms: now_ms,
            variants,
            source: source.to_owned(),
        })
    }
}

/// The writes owed for one listing item.
pub struct ItemWrites {
    pub record: Option<CatalogRecord>,
    pub bundle: Option<DownloadBundle>,
}

/// The writes owed for an item whose detail resolution gave `resolved`
/// (`None` when it failed): its record and, when there are variants, its
/// bundle; nothing for a record without an identifier.
pub open spec fn item_writes_spec(
    record: CatalogRecord,
    resolved: Option<Seq<DownloadVariant>>,
    now_ms: i64,
    source: Seq<char>,
    w: ItemWrites,
) -> bool {
    if !record.persistable() {
        w.record is None && w.bundle is None
    } else {
        &&& w.record == Some(record)
        &&& match resolved {
            None => w.bundle is None,
            Some(vs) => bundle_spec(record.imdb_id@, record.slug@, vs, now_ms, source, w.bundle),
        }
    }
}

/// Decides the writes for one listing item from the outcome of its detail
/// resolution.
pub fn item_writes(
    record: CatalogRecord,
    resolved: Option<Vec<DownloadVariant>>,
    now_ms: i64,
    source: &str,
) -> (r: ItemWrites)
    ensures
        item_writes_spec(
            record,
            match resolved {
                Some(v) => Some(v@),
                None => None,
            },
            now_ms,
            source@,
            r,
        ),
{
    if !record.is_persistable() {
        return ItemWrites { record: None, bundle: None };
    }
    let bundle = match resolved {
        Some(vs) => bundle_for(record.imdb_id.as_str(), record.slug.as_str(), vs, now_ms, source),
        None => None,
    };
    ItemWrites { record: Some(record), bundle }
}

/// A failed detail resolution of one item changes nothing for the others:
/// whatever the resolutions of a page's items, every item with an
/// identifier still has its record written, and its own writes depend on
/// its own resolution alone.
pub proof fn lemma_item_failure_isolated(
    records: Seq<CatalogRecord>,
    resolved: Seq<Option<Seq<DownloadVariant>>>,
    writes: Seq<ItemWrites>,
    now_ms: i64,
    source: Seq<char>,
)
    requires
        records.len() == resolved.len(),
        records.len() == writes.len(),
        forall|j: int|
            0 <= j < records.len() ==> item_writes_spec(
                #[trigger] records[j],
                resolved[j],
                now_ms,
                source,
                writes[j],
            ),
    ensures
        forall|j: int|
            0 <= j < records.len() && #[trigger] records[j].persistable() ==> writes[j].record
                == Some(records[j]),
        forall|j: int|
            0 <= j < records.len() && resolved[j] is None ==> (#[trigger] writes[j]).bundle is None,
{
    assert forall|j: int| 0 <= j < records.len() && resolved[j] is None implies (
    #[trigger] writes[j]).bundle is None by {
        assert(item_writes_spec(records[j], resolved[j], now_ms, source, writes[j]));
    }
}

/// The catalog collection after the records of `ws` are written in order.
pub open spec fn movies_after(
    movies: Map<Seq<char>, CatalogRecord>,
    ws: Seq<ItemWrites>,
) -> Map<Seq<char>, CatalogRecord>
    decreases ws.len(),
{
    if ws.len() == 0 {
        movies
    } else {
        let before = movies_after(movies, ws.drop_last());
        match ws.last().record {
            Some(r) => before.insert(r.key(), r),
            None => before,
        }
    }
}

/// Whatever the detail resolutions of a page's items (some may have
/// failed), once the page's writes are applied every item with an
/// identifier is stored with its own record, provided the identifiers on the
/// page are distinct.
pub proof fn lemma_page_records_persisted(
    movies: Map<Seq<char>, CatalogRecord>,
    records: Seq<CatalogRecord>,
    resolved: Seq<Option<Seq<DownloadVariant>>>,
    writes: Seq<ItemWrites>,
    now_ms: i64,
    source: Seq<char>,
)
    requires
        records.len() == resolved.len(),
        records.len() == writes.len(),
        forall|j: int|
            0 <= j < records.len() ==> item_writes_spec(
                #[trigger] records[j],
                resolved[j],
                now_ms,
                source,
                writes[j],
            ),
        forall|a: int, b: int|
            0 <= a < b < records.len() && records[a].persistable() && records[b].persistable()
                ==> records[a].key() != records[b].key(),
    ensures
        forall|j: int|
            0 <= j < records.len() && #[trigger] records[j].persistable() ==> movies_after(
                movies,
                writes,
            ).contains_key(records[j].key()) && movies_after(movies, writes)[records[j].key()]
                == records[j],
    decreases records.len(),
{
    if records.len() > 0 {
        let n = records.len() - 1;
        let rs = records.drop_last();
        let rv = resolved.drop_last();
        let ws = writes.drop_last();
        assert forall|j: int| 0 <= j < rs.len() implies item_writes_spec(
            #[trigger] rs[j],
            rv[j],
            now_ms,
            source,
            ws[j],
        ) by {
            assert(item_writes_spec(records[j], resolved[j], now_ms, source, writes[j]));
        }
        lemma_page_records_persisted(movies, rs, rv, ws, now_ms, source);
        assert(item_writes_spec(records[n], resolved[n], now_ms, source, writes[n]));
        assert forall|j: int| 0 <= j < records.len() && #[trigger] records[j].persistable() implies movies_after(
            movies,
            writes,
        ).contains_key(records[j].key()) && movies_after(movies, writes)[records[j].key()]
            == records[j] by {
            if j < n {
                assert(rs[j] == records[j]);
            }
        }
    }
}

/// Writing a catalog record twice under the same identifier leaves one
/// record under it, the second, and no other record changed.
pub proof fn lemma_upsert_idempotent(
    movies: Map<Seq<char>, CatalogRecord>,
    first: CatalogRecord,
    second: CatalogRecord,
)
    requires
        first.imdb_id@ == second.imdb_id@,
    ensures
        movies.insert(first.key(), first).insert(second.key(), second) == movies.insert(
            second.key(),
            second,
        ),
        movies.insert(first.key(), first).insert(second.key(), second).dom() == movies.dom().insert(
            second.key(),
        ),
{
    assert(movies.insert(first.key(), first).insert(second.key(), second) =~= movies.insert(
        second.key(),
        second,
    ));
}

/// The page a crawl resumes at, given the stored checkpoint: the stored page,
/// or the initial page when none is stored or it is no page index.
pub open spec fn checkpoint_spec(stored: Option<int>) -> u32 {
    match stored {
        Some(p) => if 0 <= p <= u32::MAX {
            p as u32
        } else {
            INITIAL_PAGE
        },
        None => INITIAL_PAGE,
    }
}

/// Reads the checkpoint from the value stored under it, if any.
pub fn checkpoint_or_initial(stored: Option<i64>) -> (r: u32)
    ensures
        r == checkpoint_spec(match stored {
            Some(p) => Some(p as int),
            None => None,
        }),
{
    match stored {
        Some(p) => if 0 <= p && p <= u32::MAX as i64 {
            p as u32
        } else {
            INITIAL_PAGE
        },
        None => INITIAL_PAGE,
    }
}

/// An in-memory store with the persistence semantics of the crawler: two
/// collections keyed on the external identifier and one checkpoint.
pub struct MemoryStore {
    pub movies: Table<CatalogRecord>,
    pub bundles: Table<DownloadBundle>,
    pub checkpoint: Option<u32>,
}

impl MemoryStore {
    pub open spec fn wf(&self) -> bool {
        self.movies.wf() && self.bundles.wf()
    }

    /// An empty store, without a checkpoint.
    pub fn new() -> (r: Self)
        ensures
            r.wf(),
            r.movies.view() == Map::<Seq<char>, CatalogRecord>::empty(),
            r.bundles.view() == Map::<Seq<char>, DownloadBundle>::empty(),
            r.checkpoint is None,
    {
        MemoryStore { movies: Table::new(), bundles: Table::new(), checkpoint: None }
    }

    /// Replaces the whole record stored under the record's identifier.
    pub fn upsert_catalog_record(&mut self, record: CatalogRecord)
        requires
            old(self).wf(),
            record.persistable(),
        ensures
            final(self).wf(),
            final(self).movies.view() == old(self).movies.view().insert(record.key(), record),
            final(self).bundles.view() == old(self).bundles.view(),
            final(self).checkpoint == old(self).checkpoint,
    {
        self.movies.upsert(record);
    }

    /// Replaces the whole bundle stored under `imdb_id`; does nothing when
    /// there are no variants.
    pub fn upsert_download_bundle(
        &mut self,
        imdb_id: &str,
        slug: &str,
        variants: Vec<DownloadVariant>,
        now_ms: i64,
        source: &str,
    )
        requires
            old(self).wf(),
        ensures
            final(self).wf(),
            final(self).movies.view() == old(self).movies.view(),
            final(self).checkpoint == old(self).checkpoint,
            variants@.len() == 0 ==> final(self).bundles.view() == old(self).bundles.view(),
            variants@.len() > 0 ==> exists|b: DownloadBundle|
                bundle_spec(imdb_id@, slug@, variants@, now_ms, source@, Some(b))
                    && final(self).bundles.view() == old(self).bundles.view().insert(imdb_id@, b),
    {
        let b = bundle_for(imdb_id, slug, variants, now_ms, source);
        match b {
            Some(b) => {
                let ghost g = b;
                self.bundles.upsert(b);
                assert(bundle_spec(imdb_id@, slug@, variants@, now_ms, source@, Some(g)));
            },
            None => {},
        }
    }

    /// Carries out the writes decided for one item: its record, then its
    /// bundle.
    pub fn apply_item_writes(&mut self, w: ItemWrites)
        requires
            old(self).wf(),
            w.record matches Some(r) ==> r.persistable(),
        ensures
            final(self).wf(),
            final(self).movies.view() == match w.record {
                Some(r) => old(self).movies.view().insert(r.key(), r),
                None => old(self).movies.view(),
            },
            final(self).bundles.view() == match w.bundle {
                Some(b) => old(self).bundles.view().insert(b.key(), b),
                None => old(self).bundles.view(),
            },
            final(self).checkpoint == old(self).checkpoint,
    {
        match w.record {
            Some(r) => self.upsert_catalog_record(r),
            None => {},
        }
        match w.bundle {
            Some(b) => self.bundles.upsert(b),
            None => {},
        }
    }

    /// The stored checkpoint, or the initial page when none was written.
    pub fn read_checkpoint(&self) -> (r: u32)
        ensures
            r == checkpoint_spec(match self.checkpoint {
                Some(p) => Some(p as int),
                None => None,
            }),
    {
        match self.checkpoint {
            Some(p) => checkpoint_or_initial(Some(p as i64)),
            None => checkpoint_or_initial(None),
        }
    }

    /// Stores the checkpoint unconditionally.
    pub fn write_checkpoint(&mut self, page: u32)
        ensures
            final(self).checkpoint == Some(page),
            final(self).movies == old(self).movies,
            final(self).bundles == old(self).bundles,
    {
        self.checkpoint = Some(page);
    }
}

} // verus!
