//! The dual-keyed load-through cache. Records are kept under the content hash
//! of each of their versions and under their numeric id. An entry answers
//! lookups until its time to live has run; after that the next lookup loads
//! the key afresh, and every lookup that arrives while the load is in flight
//! waits for that one load. A load that succeeds warms the other keyspace.
//!
//! The cache is a state machine over the governor that it owns. A caller
//! names itself by a ticket; when a load settles, the cache says which
//! tickets waited for it.

use crate::hex::{format_hex, hex_text};
use crate::models::BeatSaverMap;
use crate::request_manager::{
    dispatch_step, enqueue, governor_wf, released, wake_step, Dispatch, Governor, RequestError,
    RequestManager,
};
use crate::transport::{build_get, built_get, is_upstream_url, upstream_root};
use std::sync::Arc;
use vstd::hash_map::{HashMapWithView, StringHashMap};
use vstd::prelude::*;
use vstd::string::*;

verus! {

broadcast use vstd::std_specs::hash::axiom_u32_obeys_hash_table_key_model;

/// How long an entry answers lookups: twenty-four hours.
pub const TTL: u64 = 86_400_000_000_000;

/// Why a load brought no record.
pub type LoaderError = RequestError;

/// The key that a load was started for. The governor carries it beside the
/// request, so that the answer finds the load again.
#[derive(Clone, Debug, PartialEq, Eq)]
pub enum LoadKey {
    /// A load by content hash.
    Hash(String),
    /// A load by numeric id.
    Id(u32),
}

/// A record and the instant at which it was stored.
pub struct CacheEntry {
    /// The record, shared between every key that leads to it.
    pub value: Arc<BeatSaverMap>,
    /// When it was stored.
    pub inserted_at: u64,
}

/// An entry counts as present until `TTL` has passed since it was stored.
pub open spec fn is_live(entry: CacheEntry, now: u64) -> bool {
    now - entry.inserted_at < TTL
}

/// One keyspace as contracts see it.
#[verifier::reject_recursive_types(K)]
pub struct Keyspace<K> {
    /// What is stored under each key, live or stale.
    pub entries: Map<K, CacheEntry>,
    /// The keys with a load in flight, each with the tickets that wait for
    /// it, in the order of their arrival.
    pub loading: Map<K, Seq<u64>>,
}

/// The cache as contracts see it.
pub struct DualCache {
    /// The records by content hash.
    pub hash: Keyspace<Seq<char>>,
    /// The records by numeric id.
    pub id: Keyspace<u32>,
    /// The governor that loads are submitted to.
    pub governor: Governor<LoadKey>,
}

/// Why a lookup brought no record.
#[derive(Debug)]
pub enum CacheLoadingError {
    /// The cache could not be reached or did not answer.
    CommunicationError,
    /// The cache answered without a record and without a reason.
    NoData,
    /// The load of the key failed, for this reason.
    LoadingError(Arc<LoaderError>),
}

/// What a lookup found.
#[derive(Debug)]
pub enum Lookup {
    /// A live entry: this is the record, and nothing was asked upstream.
    Cached(Arc<BeatSaverMap>),
    /// A load of the key is in flight and the ticket waits for it.
    Joined,
    /// The lookup has started a load, and the ticket waits for it.
    Started,
    /// The load could not be started; nothing waits and nothing changed.
    Failed(LoaderError),
}

/// The record that a keyspace holds live under a key.
pub open spec fn hit<K>(space: Keyspace<K>, key: K, now: u64) -> Option<Arc<BeatSaverMap>> {
    if space.entries.contains_key(key) && is_live(space.entries[key], now) {
        Some(space.entries[key].value)
    } else {
        None
    }
}

/// The tickets that wait for the load of a key.
pub open spec fn waiting<K>(space: Keyspace<K>, key: K) -> Seq<u64> {
    if space.loading.contains_key(key) {
        space.loading[key]
    } else {
        Seq::empty()
    }
}

/// The keyspace once one more ticket waits for the load of a key.
pub open spec fn awaited<K>(space: Keyspace<K>, key: K, ticket: u64) -> Keyspace<K> {
    Keyspace { loading: space.loading.insert(key, waiting(space, key).push(ticket)), ..space }
}

/// One lookup. A live entry is returned and nothing changes. Otherwise the
/// ticket joins the load in flight; where none is, the lookup submits a
/// request to the governor, and the ticket waits only if that succeeded.
/// `built` is what the client made of the request's URL.
pub open spec fn lookup<K>(
    space: Keyspace<K>,
    governor: Governor<LoadKey>,
    key: K,
    reply: LoadKey,
    ticket: u64,
    now: u64,
    built: Result<reqwest::Request, reqwest::Error>,
) -> (Keyspace<K>, Governor<LoadKey>, Lookup) {
    match hit(space, key, now) {
        Some(record) => (space, governor, Lookup::Cached(record)),
        None => if space.loading.contains_key(key) {
            (awaited(space, key, ticket), governor, Lookup::Joined)
        } else {
            match enqueue(governor, built, reply) {
                (governor, Ok(_)) => (awaited(space, key, ticket), governor, Lookup::Started),
                (_, Err(error)) => (space, governor, Lookup::Failed(error)),
            }
        },
    }
}

/// A lookup by numeric id.
pub open spec fn id_lookup(
    cache: DualCache,
    map_id: u32,
    ticket: u64,
    now: u64,
    built: Result<reqwest::Request, reqwest::Error>,
) -> (DualCache, Lookup) {
    let (id, governor, found) = lookup(
        cache.id,
        cache.governor,
        map_id,
        LoadKey::Id(map_id),
        ticket,
        now,
        built,
    );
    (DualCache { id, governor, ..cache }, found)
}

/// A lookup by content hash.
pub open spec fn hash_lookup(
    cache: DualCache,
    map_hash: String,
    ticket: u64,
    now: u64,
    built: Result<reqwest::Request, reqwest::Error>,
) -> (DualCache, Lookup) {
    let (hash, governor, found) = lookup(
        cache.hash,
        cache.governor,
        map_hash@,
        LoadKey::Hash(map_hash),
        ticket,
        now,
        built,
    );
    (DualCache { hash, governor, ..cache }, found)
}

/// The entry that a record gets when it is stored at `now`.
pub open spec fn entry_of(record: Arc<BeatSaverMap>, now: u64) -> CacheEntry {
    CacheEntry { value: record, inserted_at: now }
}

/// The entries of the hash keyspace once `entry` stands under every one of
/// `hashes`: those keys lead to it, every other key is as before.
pub open spec fn spread(
    entries: Map<Seq<char>, CacheEntry>,
    hashes: Seq<Seq<char>>,
    entry: CacheEntry,
) -> Map<Seq<char>, CacheEntry> {
    Map::new(
        |key: Seq<char>| entries.contains_key(key) || hashes.contains(key),
        |key: Seq<char>| if hashes.contains(key) { entry } else { entries[key] },
    )
}

/// A keyspace once the load of a key has settled: nothing waits for the key
/// any more, and a record that was loaded stands under it; a failure stores
/// nothing.
pub open spec fn settled_space<K>(
    space: Keyspace<K>,
    key: K,
    loaded: Result<Arc<BeatSaverMap>, Arc<LoaderError>>,
    now: u64,
) -> Keyspace<K> {
    Keyspace {
        entries: match loaded {
            Ok(record) => space.entries.insert(key, entry_of(record, now)),
            Err(_) => space.entries,
        },
        loading: space.loading.remove(key),
    }
}

/// The hash keyspace once a record was written under each of its hashes.
pub open spec fn warmed_hashes(space: Keyspace<Seq<char>>, record: Arc<BeatSaverMap>, now: u64)
    -> Keyspace<Seq<char>> {
    Keyspace { entries: spread(space.entries, record.hashes(), entry_of(record, now)), ..space }
}

/// The id keyspace once a record was written under its numeric id.
pub open spec fn warmed_id(space: Keyspace<u32>, record: Arc<BeatSaverMap>, now: u64) -> Keyspace<
    u32,
> {
    Keyspace { entries: space.entries.insert(record.numeric_id(), entry_of(record, now)), ..space }
}

/// The cache once a load by id has settled. A record that was loaded is
/// stored under the id and under each of its hashes.
pub open spec fn settled_by_id(
    cache: DualCache,
    map_id: u32,
    loaded: Result<Arc<BeatSaverMap>, Arc<LoaderError>>,
    now: u64,
) -> DualCache {
    let id = settled_space(cache.id, map_id, loaded, now);
    match loaded {
        Ok(record) => DualCache { id, hash: warmed_hashes(cache.hash, record, now), ..cache },
        Err(_) => DualCache { id, ..cache },
    }
}

/// The cache once a load by hash has settled. A record that was loaded is
/// stored under the hash, under each of its own hashes, and under its
/// numeric id.
pub open spec fn settled_by_hash(
    cache: DualCache,
    map_hash: Seq<char>,
    loaded: Result<Arc<BeatSaverMap>, Arc<LoaderError>>,
    now: u64,
) -> DualCache {
    let hash = settled_space(cache.hash, map_hash, loaded, now);
    match loaded {
        Ok(record) => DualCache {
            hash: warmed_hashes(hash, record, now),
            id: warmed_id(cache.id, record, now),
            ..cache
        },
        Err(_) => DualCache { hash, ..cache },
    }
}

proof fn lemma_spread_step(
    entries: Map<Seq<char>, CacheEntry>,
    hashes: Seq<Seq<char>>,
    entry: CacheEntry,
    done: int,
)
    requires
        0 <= done < hashes.len(),
    ensures
        spread(entries, hashes.take(done + 1), entry) == spread(
            entries,
            hashes.take(done),
            entry,
        ).insert(hashes[done], entry),
{
    let shorter = hashes.take(done);
    let longer = hashes.take(done + 1);
    assert forall|key: Seq<char>| longer.contains(key) <==> (shorter.contains(key) || key
        == hashes[done]) by {
        if shorter.contains(key) {
            let at = choose|at: int| 0 <= at < shorter.len() && shorter[at] == key;
            assert(longer[at] == key);
        }
        if key == hashes[done] {
            assert(longer[done] == key);
        }
    }
}

/// One caller of a lookup: its ticket and the instant of its call.
pub struct Arrival {
    /// The caller's ticket.
    pub ticket: u64,
    /// When it called.
    pub at: u64,
}

/// The tickets of a run of callers, in their order.
pub open spec fn tickets_of(arrivals: Seq<Arrival>) -> Seq<u64> {
    Seq::new(arrivals.len(), |i: int| arrivals[i].ticket)
}

/// A keyspace and the governor after a run of lookups of one key, one after
/// the other, with no load settling in between.
pub open spec fn lookups<K>(
    space: Keyspace<K>,
    governor: Governor<LoadKey>,
    key: K,
    reply: LoadKey,
    arrivals: Seq<Arrival>,
    built: Result<reqwest::Request, reqwest::Error>,
) -> (Keyspace<K>, Governor<LoadKey>)
    decreases arrivals.len(),
{
    if arrivals.len() == 0 {
        (space, governor)
    } else {
        let (space, governor) = lookups(space, governor, key, reply, arrivals.drop_last(), built);
        let (space, governor, _) = lookup(
            space,
            governor,
            key,
            reply,
            arrivals.last().ticket,
            arrivals.last().at,
            built,
        );
        (space, governor)
    }
}

/// Which answer a lookup gives. A live entry is served; failing that, a load
/// in flight is joined; failing that, a load is started if the client
/// library accepts the URL and the governor's queue has room, and the lookup
/// fails with the build error or, on a full queue, with the buffer error.
pub proof fn lemma_lookup_outcome<K>(
    space: Keyspace<K>,
    governor: Governor<LoadKey>,
    key: K,
    reply: LoadKey,
    ticket: u64,
    now: u64,
    built: Result<reqwest::Request, reqwest::Error>,
)
    ensures
        ({
            let found = lookup(space, governor, key, reply, ticket, now, built).2;
            let missed = hit(space, key, now) is None;
            let loading = space.loading.contains_key(key);
            let room = governor.queue.len() < crate::request_manager::QUEUE_CAPACITY;
            &&& found is Cached <==> !missed
            &&& found is Joined <==> missed && loading
            &&& found is Started <==> missed && !loading && built is Ok && room
            &&& found is Failed <==> missed && !loading && !(built is Ok && room)
            &&& found matches Lookup::Failed(error) ==> match built {
                Err(reason) => error == RequestError::RequestBuildError(reason),
                Ok(_) => error == RequestError::BufferError,
            }
        }),
{
}

/// A lookup that finds a live entry returns its record and changes neither
/// the keyspace nor the governor: nothing is asked upstream.
pub proof fn lemma_live_entry_is_served<K>(
    space: Keyspace<K>,
    governor: Governor<LoadKey>,
    key: K,
    reply: LoadKey,
    ticket: u64,
    now: u64,
    built: Result<reqwest::Request, reqwest::Error>,
)
    requires
        space.entries.contains_key(key),
        is_live(space.entries[key], now),
    ensures
        lookup(space, governor, key, reply, ticket, now, built) == (
            space,
            governor,
            Lookup::Cached(space.entries[key].value),
        ),
{
}

/// After a load has stored a record under a key, every lookup of that key
/// before the TTL has run since is answered with the record, and leaves the
/// keyspace and the governor as they were.
pub proof fn lemma_loaded_entry_is_served<K>(
    space: Keyspace<K>,
    governor: Governor<LoadKey>,
    key: K,
    reply: LoadKey,
    record: Arc<BeatSaverMap>,
    stored: u64,
    ticket: u64,
    now: u64,
    built: Result<reqwest::Request, reqwest::Error>,
)
    requires
        now - stored < TTL,
    ensures
        lookup(settled_space(space, key, Ok(record), stored), governor, key, reply, ticket, now, built)
            == (settled_space(space, key, Ok(record), stored), governor, Lookup::Cached(record)),
{
}

/// Once the TTL has run since an entry was stored, a lookup of its key does
/// not return the stale record. With no load of the key in flight and room
/// in the governor's queue, it submits exactly one request, which stands
/// last in the queue and is owed to the key, and its ticket is the first to
/// wait.
pub proof fn lemma_stale_entry_is_reloaded<K>(
    space: Keyspace<K>,
    governor: Governor<LoadKey>,
    key: K,
    reply: LoadKey,
    ticket: u64,
    now: u64,
    request: reqwest::Request,
)
    requires
        space.entries.contains_key(key) ==> now - space.entries[key].inserted_at >= TTL,
        !space.loading.contains_key(key),
        governor.queue.len() < crate::request_manager::QUEUE_CAPACITY,
    ensures
        lookup(space, governor, key, reply, ticket, now, Ok(request)) == (
            Keyspace { loading: space.loading.insert(key, seq![ticket]), ..space },
            Governor {
                queue: governor.queue.push(crate::request_manager::QueuedRequest { request, reply }),
                ..governor
            },
            Lookup::Started,
        ),
{
}

/// While a load of a key is in flight, a lookup that finds no live entry
/// joins it: the governor is left as it was, and the ticket waits behind
/// those that came before.
pub proof fn lemma_load_in_flight_is_joined<K>(
    space: Keyspace<K>,
    governor: Governor<LoadKey>,
    key: K,
    reply: LoadKey,
    ticket: u64,
    now: u64,
    built: Result<reqwest::Request, reqwest::Error>,
)
    requires
        hit(space, key, now) is None,
        space.loading.contains_key(key),
    ensures
        lookup(space, governor, key, reply, ticket, now, built) == (
            Keyspace { loading: space.loading.insert(key, space.loading[key].push(ticket)), ..space },
            governor,
            Lookup::Joined,
        ),
{
}

/// Single flight. However many callers look up a key that has no live entry
/// and no load in flight, one request is submitted to the governor, and it
/// is the first caller's; when the run is over, the tickets that wait for
/// the load are those of all the callers, in their order, so that the
/// settled load is handed to each of them. Nothing is stored meanwhile.
pub proof fn lemma_single_flight<K>(
    space: Keyspace<K>,
    governor: Governor<LoadKey>,
    key: K,
    reply: LoadKey,
    arrivals: Seq<Arrival>,
    request: reqwest::Request,
)
    requires
        arrivals.len() >= 1,
        forall|i: int| 0 <= i < arrivals.len() ==> hit(space, key, #[trigger] arrivals[i].at) is None,
        !space.loading.contains_key(key),
        governor.queue.len() < crate::request_manager::QUEUE_CAPACITY,
    ensures
        lookups(space, governor, key, reply, arrivals, Ok(request)) == (
            Keyspace { loading: space.loading.insert(key, tickets_of(arrivals)), ..space },
            Governor {
                queue: governor.queue.push(crate::request_manager::QueuedRequest { request, reply }),
                ..governor
            },
        ),
        waiting(lookups(space, governor, key, reply, arrivals, Ok(request)).0, key) == tickets_of(
            arrivals,
        ),
    decreases arrivals.len(),
{
    let earlier = arrivals.drop_last();
    let last = arrivals.last();
    if earlier.len() == 0 {
        assert(lookups(space, governor, key, reply, earlier, Ok(request)) == (space, governor));
        lemma_stale_entry_is_reloaded(space, governor, key, reply, last.ticket, last.at, request);
        assert(tickets_of(arrivals) =~= seq![last.ticket]);
    } else {
        assert forall|i: int| 0 <= i < earlier.len() implies hit(
            space,
            key,
            #[trigger] earlier[i].at,
        ) is None by {
            assert(earlier[i] == arrivals[i]);
        }
        lemma_single_flight(space, governor, key, reply, earlier, request);
        let (mid_space, mid_governor) = lookups(space, governor, key, reply, earlier, Ok(request));
        lemma_load_in_flight_is_joined(
            mid_space,
            mid_governor,
            key,
            reply,
            last.ticket,
            last.at,
            Ok(request),
        );
        assert(tickets_of(arrivals) =~= tickets_of(earlier).push(last.ticket));
        assert(mid_space.loading.insert(key, tickets_of(earlier).push(last.ticket))
            =~= space.loading.insert(key, tickets_of(arrivals)));
    }
}

/// A load by id warms the hash keyspace. After it has stored a record,
/// every lookup by the hash of one of the record's versions before the TTL
/// has run since is answered with that record and asks nothing upstream.
pub proof fn lemma_load_by_id_warms_hashes(
    cache: DualCache,
    map_id: u32,
    record: Arc<BeatSaverMap>,
    stored: u64,
    map_hash: String,
    ticket: u64,
    now: u64,
    built: Result<reqwest::Request, reqwest::Error>,
)
    requires
        record.hashes().contains(map_hash@),
        now - stored < TTL,
    ensures
        hash_lookup(settled_by_id(cache, map_id, Ok(record), stored), map_hash, ticket, now, built)
            == (settled_by_id(cache, map_id, Ok(record), stored), Lookup::Cached(record)),
{
}

/// A load by hash warms the id keyspace. After it has stored a record,
/// every lookup by the record's numeric id before the TTL has run since is
/// answered with that record and asks nothing upstream; so is every lookup
/// by the hash that was loaded, and by the hash of any of the record's
/// versions.
pub proof fn lemma_load_by_hash_warms_both(
    cache: DualCache,
    loaded_hash: Seq<char>,
    record: Arc<BeatSaverMap>,
    stored: u64,
    map_hash: String,
    ticket: u64,
    now: u64,
    built: Result<reqwest::Request, reqwest::Error>,
)
    requires
        map_hash@ == loaded_hash || record.hashes().contains(map_hash@),
        now - stored < TTL,
    ensures
        id_lookup(
            settled_by_hash(cache, loaded_hash, Ok(record), stored),
            record.numeric_id(),
            ticket,
            now,
            built,
        ) == (settled_by_hash(cache, loaded_hash, Ok(record), stored), Lookup::Cached(record)),
        hash_lookup(
            settled_by_hash(cache, loaded_hash, Ok(record), stored),
            map_hash,
            ticket,
            now,
            built,
        ) == (settled_by_hash(cache, loaded_hash, Ok(record), stored), Lookup::Cached(record)),
{
}

/// A load that fails stores nothing: both keyspaces hold the entries they
/// held, and only the wait for the key is over.
pub proof fn lemma_failed_load_stores_nothing(
    cache: DualCache,
    map_id: u32,
    map_hash: Seq<char>,
    reason: Arc<LoaderError>,
    now: u64,
)
    ensures
        settled_by_id(cache, map_id, Err(reason), now).id.entries == cache.id.entries,
        settled_by_id(cache, map_id, Err(reason), now).hash == cache.hash,
        settled_by_hash(cache, map_hash, Err(reason), now).hash.entries == cache.hash.entries,
        settled_by_hash(cache, map_hash, Err(reason), now).id == cache.id,
{
}

/// Where records are asked for by content hash.
pub open spec fn hash_endpoint() -> Seq<char> {
    "https://api.beatsaver.com/maps/hash/"@
}

/// Where records are asked for by numeric id.
pub open spec fn id_endpoint() -> Seq<char> {
    "https://api.beatsaver.com/maps/id/"@
}

/// The upstream URL of the record with the given content hash.
pub open spec fn hash_url_text(map_hash: Seq<char>) -> Seq<char> {
    hash_endpoint() + map_hash
}

/// The upstream URL of the record with the given id.
pub open spec fn id_url_text(map_key: u32) -> Seq<char> {
    id_endpoint() + hex_text(map_key as nat)
}

/// The upstream URL of the record with the given content hash.
pub fn hash_url(map_hash: &str) -> (url: String)
    ensures
        url@ == hash_url_text(map_hash@),
        is_upstream_url(url@),
{
    proof {
        reveal_strlit("https://api.beatsaver.com/maps/hash/");
        reveal_strlit("https://api.beatsaver.com/maps/");
        assert((hash_endpoint() + map_hash@).subrange(0, upstream_root().len() as int)
            =~= upstream_root());
    }
    let mut url = "https://api.beatsaver.com/maps/hash/".to_owned();
    url.append(map_hash);
    url
}

/// The upstream URL of the record with the given id: the id goes in
/// lower-case hexadecimal.
pub fn id_url(map_key: u32) -> (url: String)
    ensures
        url@ == id_url_text(map_key),
        is_upstream_url(url@),
{
    proof {
        reveal_strlit("https://api.beatsaver.com/maps/id/");
        reveal_strlit("https://api.beatsaver.com/maps/");
        assert((id_endpoint() + hex_text(map_key as nat)).subrange(
            0,
            upstream_root().len() as int,
        ) =~= upstream_root());
    }
    let mut url = "https://api.beatsaver.com/maps/id/".to_owned();
    let digits = format_hex(map_key);
    url.append(digits.as_str());
    url
}

/// Turns what came of a load into what the cache settles it with. `decoded`
/// is the governor's answer, with a response already read as a record or
/// found to be none: a record is shared, a response that is no record becomes
/// [`RequestError::JsonError`], and the governor's own error passes through.
pub fn response_to_map(decoded: Result<Result<BeatSaverMap, reqwest::Error>, LoaderError>) -> (loaded:
    Result<Arc<BeatSaverMap>, Arc<LoaderError>>)
    ensures
        match decoded {
            Ok(Ok(map)) => loaded matches Ok(record) && *record == map,
            Ok(Err(error)) => loaded matches Err(reason) && *reason == RequestError::JsonError(
                error,
            ),
            Err(error) => loaded matches Err(reason) && *reason == error,
        },
{
    match decoded {
        Ok(Ok(map)) => Ok(Arc::new(map)),
        Ok(Err(error)) => Err(Arc::new(RequestError::JsonError(error))),
        Err(error) => Err(Arc::new(error)),
    }
}

/// `Arc::clone`: a second handle to the same record.
#[verifier::external_body]
fn share(record: &Arc<BeatSaverMap>) -> (shared: Arc<BeatSaverMap>)
    ensures
        shared == *record,
{
    Arc::clone(record)
}

fn copy_of(waiters: &Vec<u64>) -> (copy: Vec<u64>)
    ensures
        copy@ == waiters@,
{
    let mut copy: Vec<u64> = Vec::new();
    let mut i: usize = 0;
    while i < waiters.len()
        invariant
            i <= waiters.len(),
            copy@ == waiters@.take(i as int),
        decreases waiters.len() - i,
    {
        copy.push(waiters[i]);
        i = i + 1;
    }
    copy
}

fn with_ticket(waiters: &Vec<u64>, ticket: u64) -> (longer: Vec<u64>)
    ensures
        longer@ == waiters@.push(ticket),
{
    let mut longer = copy_of(waiters);
    longer.push(ticket);
    longer
}

/// The two keyspaces and the governor that their loads go through.
pub struct MapCache {
    hash: StringHashMap<CacheEntry>,
    hash_loading: StringHashMap<Vec<u64>>,
    id: HashMapWithView<u32, CacheEntry>,
    id_loading: HashMapWithView<u32, Vec<u64>>,
    request_manager: RequestManager<LoadKey>,
}

impl View for MapCache {
    type V = DualCache;

    closed spec fn view(&self) -> DualCache {
        DualCache {
            hash: Keyspace {
                entries: self.hash@,
                loading: self.hash_loading@.map_values(|waiters: Vec<u64>| waiters@),
            },
            id: Keyspace {
                entries: self.id@,
                loading: self.id_loading@.map_values(|waiters: Vec<u64>| waiters@),
            },
            governor: self.request_manager@,
        }
    }
}

impl MapCache {
    /// The cache's invariant: that of its governor.
    pub open spec fn wf(&self) -> bool {
        governor_wf(self@.governor)
    }

    /// The one outbound client, which the cache's governor owns.
    pub closed spec fn spec_client(&self) -> reqwest::Client {
        self.request_manager.spec_client()
    }

    /// An empty cache bound to a governor.
    pub fn setup(request_manager: RequestManager<LoadKey>) -> (cache: MapCache)
        requires
            request_manager.wf(),
        ensures
            cache.spec_client() == request_manager.spec_client(),
            cache@ == (DualCache {
                hash: Keyspace { entries: Map::empty(), loading: Map::empty() },
                id: Keyspace { entries: Map::empty(), loading: Map::empty() },
                governor: request_manager@,
            }),
            cache.wf(),
    {
        let cache = MapCache {
            hash: StringHashMap::new(),
            hash_loading: StringHashMap::new(),
            id: HashMapWithView::new(),
            id_loading: HashMapWithView::new(),
            request_manager,
        };
        assert(cache@.hash.loading =~= Map::empty());
        assert(cache@.id.loading =~= Map::empty());
        cache
    }

    /// The governor that the cache submits its loads to.
    pub fn request_manager(&self) -> (manager: &RequestManager<LoadKey>)
        ensures
            manager@ == self@.governor,
            manager.spec_client() == self.spec_client(),
    {
        &self.request_manager
    }

    /// Takes one turn of the governor's dispatch loop at `now`. The cache's
    /// keyspaces are not touched.
    pub fn dispatch(&mut self, now: u64) -> (action: Dispatch<LoadKey>)
        requires
            old(self).wf(),
        ensures
            final(self)@ == (DualCache {
                governor: dispatch_step(old(self)@.governor, now).0,
                ..old(self)@
            }),
            action == dispatch_step(old(self)@.governor, now).1,
            final(self).spec_client() == old(self).spec_client(),
            final(self).wf(),
    {
        self.request_manager.dispatch(now)
    }

    /// Wakes the governor's dispatch loop at `now`, when its rest is over,
    /// and takes a turn. The cache's keyspaces are not touched.
    pub fn wake(&mut self, now: u64) -> (action: Dispatch<LoadKey>)
        requires
            old(self).wf(),
        ensures
            final(self)@ == (DualCache {
                governor: wake_step(old(self)@.governor, now).0,
                ..old(self)@
            }),
            action == wake_step(old(self)@.governor, now).1,
            final(self).spec_client() == old(self).spec_client(),
            final(self).wf(),
    {
        self.request_manager.wake(now)
    }

    /// Hands the governor the permit of a request that has settled.
    pub fn release(&mut self)
        requires
            old(self).wf(),
        ensures
            final(self)@ == (DualCache {
                governor: Governor {
                    budget: released(old(self)@.governor.budget),
                    ..old(self)@.governor
                },
                ..old(self)@
            }),
            final(self).spec_client() == old(self).spec_client(),
            final(self).wf(),
    {
        self.request_manager.release();
    }

    /// Looks a record up by its numeric id on behalf of `ticket`.
    pub fn get_map_by_id(&mut self, map_id: u32, ticket: u64, now: u64) -> (found: Lookup)
        requires
            old(self).wf(),
        ensures
            (final(self)@, found) == id_lookup(
                old(self)@,
                map_id,
                ticket,
                now,
                built_get(id_url_text(map_id)),
            ),
            final(self).spec_client() == old(self).spec_client(),
            final(self).wf(),
    {
        match self.id.get(&map_id) {
            Some(entry) => {
                if now < entry.inserted_at || now - entry.inserted_at < TTL {
                    return Lookup::Cached(share(&entry.value));
                }
            },
            None => {},
        }
        match self.id_loading.get(&map_id) {
            Some(waiters) => {
                let longer = with_ticket(waiters, ticket);
                self.id_loading.insert(map_id, longer);
                assert(self@.id.loading =~= awaited(old(self)@.id, map_id, ticket).loading);
                Lookup::Joined
            },
            None => {
                let url = id_url(map_id);
                let built = build_get(self.request_manager.client(), url.as_str());
                let outcome = self.request_manager.submit(built, LoadKey::Id(map_id));
                match outcome {
                    Ok(_) => {
                        let mut waiters: Vec<u64> = Vec::new();
                        waiters.push(ticket);
                        self.id_loading.insert(map_id, waiters);
                        assert(self@.id.loading =~= awaited(old(self)@.id, map_id, ticket).loading);
                        Lookup::Started
                    },
                    Err(error) => Lookup::Failed(error),
                }
            },
        }
    }

    /// Looks a record up by the content hash of one of its versions on
    /// behalf of `ticket`.
    pub fn get_map_by_hash(&mut self, map_hash: String, ticket: u64, now: u64) -> (found: Lookup)
        requires
            old(self).wf(),
        ensures
            (final(self)@, found) == hash_lookup(
                old(self)@,
                map_hash,
                ticket,
                now,
                built_get(hash_url_text(map_hash@)),
            ),
            final(self).spec_client() == old(self).spec_client(),
            final(self).wf(),
    {
        match self.hash.get(map_hash.as_str()) {
            Some(entry) => {
                if now < entry.inserted_at || now - entry.inserted_at < TTL {
                    return Lookup::Cached(share(&entry.value));
                }
            },
            None => {},
        }
        match self.hash_loading.get(map_hash.as_str()) {
            Some(waiters) => {
                let longer = with_ticket(waiters, ticket);
                self.hash_loading.insert(map_hash.clone(), longer);
                assert(self@.hash.loading =~= awaited(old(self)@.hash, map_hash@, ticket).loading);
                Lookup::Joined
            },
            None => {
                let url = hash_url(map_hash.as_str());
                let key = map_hash.clone();
                let built = build_get(self.request_manager.client(), url.as_str());
                let outcome = self.request_manager.submit(built, LoadKey::Hash(map_hash));
                match outcome {
                    Ok(_) => {
                        let mut waiters: Vec<u64> = Vec::new();
                        waiters.push(ticket);
                        self.hash_loading.insert(key, waiters);
                        assert(self@.hash.loading =~= awaited(
                            old(self)@.hash,
                            map_hash@,
                            ticket,
                        ).loading);
                        Lookup::Started
                    },
                    Err(error) => Lookup::Failed(error),
                }
            },
        }
    }

    /// Writes a record into the hash keyspace under the hash of each of its
    /// versions.
    pub fn insert_map_by_id(&mut self, map: &Arc<BeatSaverMap>, now: u64)
        requires
            old(self).wf(),
        ensures
            final(self)@ == (DualCache { hash: warmed_hashes(old(self)@.hash, *map, now), ..old(self)@ }),
            final(self).spec_client() == old(self).spec_client(),
            final(self).wf(),
    {
        let ghost hashes = map.hashes();
        let ghost entry = entry_of(*map, now);
        let count: usize = map.versions.len();
        let mut done: usize = 0;
        while done < count
            invariant
                done <= count,
                count == map.versions@.len(),
                hashes == map.hashes(),
                entry == entry_of(*map, now),
                self@.hash.entries == spread(old(self)@.hash.entries, hashes.take(done as int), entry),
                self@.hash.loading == old(self)@.hash.loading,
                self@.id == old(self)@.id,
                self@.governor == old(self)@.governor,
                self.spec_client() == old(self).spec_client(),
            decreases count - done,
        {
            let hash = map.versions[done].hash.clone();
            self.hash.insert(hash, CacheEntry { value: share(map), inserted_at: now });
            proof {
                lemma_spread_step(old(self)@.hash.entries, hashes, entry, done as int);
            }
            done = done + 1;
        }
        assert(hashes.take(count as int) =~= hashes);
    }

    /// Writes a record into the hash keyspace under the hash of each of its
    /// versions, and into the id keyspace under its numeric id.
    pub fn insert_map_by_hash(&mut self, map: &Arc<BeatSaverMap>, now: u64)
        requires
            old(self).wf(),
        ensures
            final(self)@ == (DualCache {
                hash: warmed_hashes(old(self)@.hash, *map, now),
                id: warmed_id(old(self)@.id, *map, now),
                ..old(self)@
            }),
            final(self).spec_client() == old(self).spec_client(),
            final(self).wf(),
    {
        self.insert_map_by_id(map, now);
        let id = map.cache_id();
        self.id.insert(id, CacheEntry { value: share(map), inserted_at: now });
    }

    /// Settles the load of an id: stores the record that was loaded, warms
    /// the hash keyspace with it, and returns the tickets that waited for
    /// the load. Each of them is owed `loaded`.
    pub fn settle_by_id(
        &mut self,
        map_id: u32,
        loaded: &Result<Arc<BeatSaverMap>, Arc<LoaderError>>,
        now: u64,
    ) -> (waiters: Vec<u64>)
        requires
            old(self).wf(),
        ensures
            final(self)@ == settled_by_id(old(self)@, map_id, *loaded, now),
            waiters@ == waiting(old(self)@.id, map_id),
            final(self).spec_client() == old(self).spec_client(),
            final(self).wf(),
    {
        let waiters = match self.id_loading.remove(&map_id) {
            Some(waiters) => waiters,
            None => Vec::new(),
        };
        assert(self@.id.loading =~= old(self)@.id.loading.remove(map_id));
        match loaded {
            Ok(record) => {
                self.id.insert(map_id, CacheEntry { value: share(record), inserted_at: now });
                self.insert_map_by_id(record, now);
            },
            Err(_) => {},
        }
        waiters
    }

    /// Settles the load of a hash: stores the record that was loaded, warms
    /// both keyspaces with it, and returns the tickets that waited for the
    /// load. Each of them is owed `loaded`.
    pub fn settle_by_hash(
        &mut self,
        map_hash: &str,
        loaded: &Result<Arc<BeatSaverMap>, Arc<LoaderError>>,
        now: u64,
    ) -> (waiters: Vec<u64>)
        requires
            old(self).wf(),
        ensures
            final(self)@ == settled_by_hash(old(self)@, map_hash@, *loaded, now),
            waiters@ == waiting(old(self)@.hash, map_hash@),
            final(self).spec_client() == old(self).spec_client(),
            final(self).wf(),
    {
        let waiters = match self.hash_loading.get(map_hash) {
            Some(waiters) => copy_of(waiters),
            None => Vec::new(),
        };
        self.hash_loading.remove(map_hash);
        assert(self@.hash.loading =~= old(self)@.hash.loading.remove(map_hash@));
        match loaded {
            Ok(record) => {
                let key = map_hash.to_owned();
                self.hash.insert(key, CacheEntry { value: share(record), inserted_at: now });
                self.insert_map_by_hash(record, now);
            },
            Err(_) => {},
        }
        waiters
    }
}

} // verus!
