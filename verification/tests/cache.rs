use beatsaver_cache::cache::{
    hash_url, id_url, response_to_map, LoadKey, LoaderError, Lookup, MapCache, TTL,
};
use beatsaver_cache::models::{
    BeatSaverMap, DifficultyCharacteristic, DifficultyType, MapDifficulty, MapMetadata, MapVersion,
    MapVersionState, ParitySummary, Timestamp,
};
use beatsaver_cache::request_manager::{Dispatch, RequestError, RequestManager};
use std::sync::Arc;

const SECOND: u64 = 1_000_000_000;
const START: u64 = 1_700_000_000 * SECOND;

fn cache() -> MapCache {
    MapCache::setup(RequestManager::new(reqwest::Client::new(), 8, 9, 1_050_000_000))
}

fn version(hash: &str) -> MapVersion {
    MapVersion {
        hash: hash.to_owned(),
        key: "2a".to_owned(),
        state: MapVersionState::Published,
        created_at: Timestamp { seconds: 1_600_000_000, nanoseconds: 5 },
        diffs: vec![MapDifficulty {
            bombs: 3,
            characteristic: DifficultyCharacteristic::Standard,
            chroma: false,
            cinema: false,
            difficulty: DifficultyType::ExpertPlus,
            events: 100,
            me: false,
            ne: true,
            njs_bits: 18.0f32.to_bits(),
            notes: 800,
            nps_bits: 5.5f64.to_bits(),
            obstacles: 12,
            offset_bits: 0.0f32.to_bits(),
            seconds_bits: 145.25f64.to_bits(),
            stars_bits: None,
            parity_summary: ParitySummary { errors: 0, warns: 1, resets: 2 },
        }],
        download_url: "https://cdn.example/a.zip".to_owned(),
        cover_url: "https://cdn.example/a.jpg".to_owned(),
        preview_url: "https://cdn.example/a.mp3".to_owned(),
    }
}

fn record(id: &str, hashes: &[&str]) -> BeatSaverMap {
    BeatSaverMap {
        id: id.to_owned(),
        name: "a map".to_owned(),
        description: "".to_owned(),
        metadata: MapMetadata {
            bpm_bits: 174.0f32.to_bits(),
            duration: 145,
            song_name: "song".to_owned(),
            song_sub_name: "".to_owned(),
            song_author_name: "artist".to_owned(),
            level_author_name: "mapper".to_owned(),
        },
        automapper: false,
        ranked: true,
        qualified: false,
        versions: hashes.iter().map(|hash| version(hash)).collect(),
        created_at: Timestamp { seconds: 1_600_000_000, nanoseconds: 0 },
        updated_at: Timestamp { seconds: 1_600_000_100, nanoseconds: 0 },
        last_published_at: Timestamp { seconds: 1_600_000_200, nanoseconds: 0 },
    }
}

fn loaded(id: &str, hashes: &[&str]) -> Result<Arc<BeatSaverMap>, Arc<LoaderError>> {
    Ok(Arc::new(record(id, hashes)))
}

fn served(found: Lookup) -> Arc<BeatSaverMap> {
    match found {
        Lookup::Cached(map) => map,
        other => panic!("expected a cached record, got {:?}", other),
    }
}

#[test]
fn upstream_urls() {
    assert_eq!(hash_url("abc123"), "https://api.beatsaver.com/maps/hash/abc123");
    assert_eq!(hash_url(""), "https://api.beatsaver.com/maps/hash/");
    assert_eq!(id_url(0x2a), "https://api.beatsaver.com/maps/id/2a");
    assert_eq!(id_url(0), "https://api.beatsaver.com/maps/id/0");
    assert_eq!(id_url(0xDEADBEEF), "https://api.beatsaver.com/maps/id/deadbeef");
}

#[test]
fn time_to_live_is_a_day() {
    assert_eq!(TTL, 24 * 60 * 60 * SECOND);
}

#[test]
fn miss_submits_one_request_for_the_key() {
    let mut cache = cache();
    assert!(matches!(cache.get_map_by_id(0x2a, 1, START), Lookup::Started));
    assert_eq!(cache.request_manager().queued(), 1);
    match cache.dispatch(START) {
        Dispatch::Execute(item) => {
            assert_eq!(item.reply, LoadKey::Id(0x2a));
            assert_eq!(item.request.url().as_str(), "https://api.beatsaver.com/maps/id/2a");
            assert_eq!(item.request.method().as_str(), "GET");
        }
        other => panic!("expected a request to send, got {:?}", other),
    }
    assert!(matches!(cache.get_map_by_hash("cafe".to_owned(), 2, START), Lookup::Started));
    match cache.dispatch(START) {
        Dispatch::Execute(item) => {
            assert_eq!(item.reply, LoadKey::Hash("cafe".to_owned()));
            assert_eq!(item.request.url().as_str(), "https://api.beatsaver.com/maps/hash/cafe");
        }
        other => panic!("expected a request to send, got {:?}", other),
    }
    assert_eq!(cache.request_manager().in_flight(), 2);
    cache.release();
    assert_eq!(cache.request_manager().in_flight(), 1);
}

#[test]
fn second_lookup_within_the_ttl_asks_nothing_upstream() {
    let mut cache = cache();
    assert!(matches!(cache.get_map_by_id(7, 1, START), Lookup::Started));
    assert!(matches!(cache.dispatch(START), Dispatch::Execute(_)));
    let outcome = loaded("7", &["aa"]);
    assert_eq!(cache.settle_by_id(7, &outcome, START + SECOND), vec![1]);
    let first = served(cache.get_map_by_id(7, 2, START + SECOND));
    let late = served(cache.get_map_by_id(7, 3, START + SECOND + TTL - 1));
    assert!(Arc::ptr_eq(&first, outcome.as_ref().unwrap()));
    assert!(Arc::ptr_eq(&late, outcome.as_ref().unwrap()));
    assert_eq!(cache.request_manager().queued(), 0);
    assert!(matches!(cache.dispatch(START + 2 * SECOND), Dispatch::Idle));
}

#[test]
fn lookup_after_the_ttl_loads_again_despite_the_stale_entry() {
    let mut cache = cache();
    assert!(matches!(cache.get_map_by_id(7, 1, START), Lookup::Started));
    assert!(matches!(cache.dispatch(START), Dispatch::Execute(_)));
    assert_eq!(cache.settle_by_id(7, &loaded("7", &["aa"]), START), vec![1]);
    assert!(matches!(cache.get_map_by_id(7, 2, START + TTL), Lookup::Started));
    assert_eq!(cache.request_manager().queued(), 1);
    assert!(matches!(cache.get_map_by_id(7, 3, START + TTL + 1), Lookup::Joined));
    assert_eq!(cache.request_manager().queued(), 1);
    let fresh = loaded("7", &["aa", "bb"]);
    assert_eq!(cache.settle_by_id(7, &fresh, START + TTL + 2), vec![2, 3]);
    let found = served(cache.get_map_by_id(7, 4, START + TTL + 3));
    assert!(Arc::ptr_eq(&found, fresh.as_ref().unwrap()));
    assert_eq!(found.versions.len(), 2);
}

#[test]
fn entry_is_live_while_the_clock_reads_before_its_storing() {
    let mut cache = cache();
    cache.get_map_by_id(7, 1, START);
    cache.settle_by_id(7, &loaded("7", &[]), START);
    assert!(matches!(cache.get_map_by_id(7, 2, START - 5 * SECOND), Lookup::Cached(_)));
}

#[test]
fn concurrent_lookups_share_one_load() {
    let mut cache = cache();
    assert!(matches!(cache.get_map_by_hash("feed".to_owned(), 10, START), Lookup::Started));
    for ticket in 11..30u64 {
        let found = cache.get_map_by_hash("feed".to_owned(), ticket, START + ticket);
        assert!(matches!(found, Lookup::Joined));
    }
    assert_eq!(cache.request_manager().queued(), 1);
    let outcome = loaded("1f", &["feed"]);
    let waiters = cache.settle_by_hash("feed", &outcome, START + SECOND);
    assert_eq!(waiters, (10..30u64).collect::<Vec<u64>>());
    assert!(cache.settle_by_hash("feed", &outcome, START + SECOND).is_empty());
    assert!(matches!(cache.dispatch(START), Dispatch::Execute(_)));
    assert!(matches!(cache.dispatch(START), Dispatch::Idle));
}

#[test]
fn loads_of_different_keys_do_not_join() {
    let mut cache = cache();
    assert!(matches!(cache.get_map_by_id(1, 1, START), Lookup::Started));
    assert!(matches!(cache.get_map_by_id(2, 2, START), Lookup::Started));
    assert!(matches!(cache.get_map_by_hash("1".to_owned(), 3, START), Lookup::Started));
    assert_eq!(cache.request_manager().queued(), 3);
    assert_eq!(cache.settle_by_id(2, &loaded("2", &[]), START), vec![2]);
    assert_eq!(cache.settle_by_id(1, &loaded("1", &[]), START), vec![1]);
    assert_eq!(cache.settle_by_hash("1", &loaded("9", &[]), START), vec![3]);
}

#[test]
fn load_by_id_warms_every_hash_of_the_record() {
    let mut cache = cache();
    assert!(matches!(cache.get_map_by_id(0x2a, 1, START), Lookup::Started));
    assert!(matches!(cache.dispatch(START), Dispatch::Execute(_)));
    let outcome = loaded("2a", &["h1", "h2"]);
    assert_eq!(cache.settle_by_id(0x2a, &outcome, START), vec![1]);
    let by_first = served(cache.get_map_by_hash("h1".to_owned(), 2, START + 1));
    let by_second = served(cache.get_map_by_hash("h2".to_owned(), 3, START + 2));
    assert!(Arc::ptr_eq(&by_first, outcome.as_ref().unwrap()));
    assert!(Arc::ptr_eq(&by_second, outcome.as_ref().unwrap()));
    assert_eq!(cache.request_manager().queued(), 0);
    assert!(matches!(cache.get_map_by_hash("h3".to_owned(), 4, START + 3), Lookup::Started));
}

#[test]
fn load_by_hash_warms_the_id_and_the_other_hashes() {
    let mut cache = cache();
    assert!(matches!(cache.get_map_by_hash("h1".to_owned(), 1, START), Lookup::Started));
    assert!(matches!(cache.dispatch(START), Dispatch::Execute(_)));
    let outcome = loaded("2a", &["h1", "h2"]);
    assert_eq!(cache.settle_by_hash("h1", &outcome, START), vec![1]);
    let by_id = served(cache.get_map_by_id(0x2a, 2, START + 1));
    let by_other = served(cache.get_map_by_hash("h2".to_owned(), 3, START + 1));
    let by_same = served(cache.get_map_by_hash("h1".to_owned(), 4, START + 1));
    assert!(Arc::ptr_eq(&by_id, outcome.as_ref().unwrap()));
    assert!(Arc::ptr_eq(&by_other, outcome.as_ref().unwrap()));
    assert!(Arc::ptr_eq(&by_same, outcome.as_ref().unwrap()));
    assert_eq!(cache.request_manager().queued(), 0);
}

#[test]
fn load_by_hash_keeps_the_record_under_a_hash_it_does_not_list() {
    let mut cache = cache();
    cache.get_map_by_hash("old".to_owned(), 1, START);
    cache.settle_by_hash("old", &loaded("3", &["new"]), START);
    assert!(matches!(cache.get_map_by_hash("old".to_owned(), 2, START), Lookup::Cached(_)));
    assert!(matches!(cache.get_map_by_hash("new".to_owned(), 3, START), Lookup::Cached(_)));
}

#[test]
fn record_whose_id_is_no_hex_number_is_kept_under_zero() {
    let mut cache = cache();
    cache.get_map_by_hash("h1".to_owned(), 1, START);
    cache.settle_by_hash("h1", &loaded("not hex", &["h1"]), START);
    let found = served(cache.get_map_by_id(0, 2, START));
    assert_eq!(found.id, "not hex");
    assert_eq!(record("not hex", &[]).cache_id(), 0);
    assert_eq!(record("100000000", &[]).cache_id(), 0);
    assert_eq!(record("", &[]).cache_id(), 0);
    assert_eq!(record("2A", &[]).cache_id(), 42);
    assert_eq!(record("+2a", &[]).cache_id(), 42);
}

#[test]
fn failed_load_reaches_every_waiter_and_stores_nothing() {
    let mut cache = cache();
    assert!(matches!(cache.get_map_by_id(5, 1, START), Lookup::Started));
    assert!(matches!(cache.get_map_by_id(5, 2, START), Lookup::Joined));
    assert!(matches!(cache.dispatch(START), Dispatch::Execute(_)));
    let outcome: Result<Arc<BeatSaverMap>, Arc<LoaderError>> =
        Err(Arc::new(RequestError::StatusCodeError(503)));
    assert_eq!(cache.settle_by_id(5, &outcome, START + 1), vec![1, 2]);
    assert!(matches!(cache.get_map_by_id(5, 3, START + 2), Lookup::Started));
    assert_eq!(cache.request_manager().queued(), 1);
}

#[test]
fn failed_reload_leaves_the_stale_entry_stale() {
    let mut cache = cache();
    cache.get_map_by_id(5, 1, START);
    cache.settle_by_id(5, &loaded("5", &["aa"]), START);
    assert!(matches!(cache.get_map_by_id(5, 2, START + TTL), Lookup::Started));
    let outcome: Result<Arc<BeatSaverMap>, Arc<LoaderError>> = Err(Arc::new(RequestError::RecvError));
    assert_eq!(cache.settle_by_id(5, &outcome, START + TTL + 1), vec![2]);
    assert!(matches!(cache.get_map_by_id(5, 3, START + TTL + 2), Lookup::Started));
    assert!(matches!(cache.get_map_by_id(5, 4, START + TTL - 1), Lookup::Cached(_)));
}

#[test]
fn lookup_fails_at_once_when_the_queue_is_full() {
    let mut cache = cache();
    for id in 0..1024u32 {
        assert!(matches!(cache.get_map_by_id(id, id as u64, START), Lookup::Started));
    }
    let found = cache.get_map_by_id(5000, 5000, START);
    assert!(matches!(found, Lookup::Failed(RequestError::BufferError)));
    assert_eq!(cache.request_manager().queued(), 1024);
    assert!(cache.settle_by_id(5000, &loaded("1388", &[]), START).is_empty());
    assert!(matches!(cache.get_map_by_id(3, 9000, START), Lookup::Joined));
}

#[test]
fn writing_by_id_fills_the_hash_keyspace_only() {
    let mut cache = cache();
    let map = Arc::new(record("ff", &["x", "y", "x"]));
    cache.insert_map_by_id(&map, START);
    assert!(matches!(cache.get_map_by_hash("x".to_owned(), 1, START), Lookup::Cached(_)));
    assert!(matches!(cache.get_map_by_hash("y".to_owned(), 2, START), Lookup::Cached(_)));
    assert!(matches!(cache.get_map_by_id(0xff, 3, START), Lookup::Started));
}

#[test]
fn writing_by_hash_fills_both_keyspaces() {
    let mut cache = cache();
    let map = Arc::new(record("ff", &["x", "y", "x"]));
    cache.insert_map_by_hash(&map, START);
    assert!(matches!(cache.get_map_by_hash("x".to_owned(), 1, START), Lookup::Cached(_)));
    let found = served(cache.get_map_by_id(0xff, 3, START + TTL - 1));
    assert!(Arc::ptr_eq(&found, &map));
    assert!(matches!(cache.get_map_by_id(0xff, 4, START + TTL), Lookup::Started));
    assert_eq!(cache.request_manager().queued(), 1);
}

#[test]
fn write_while_a_load_is_in_flight_serves_at_once_and_the_load_wins_later() {
    let mut cache = cache();
    assert!(matches!(cache.get_map_by_hash("h2".to_owned(), 1, START), Lookup::Started));
    let by_id = loaded("2a", &["h1", "h2"]);
    cache.get_map_by_id(0x2a, 2, START);
    cache.settle_by_id(0x2a, &by_id, START + 1);
    let early = served(cache.get_map_by_hash("h2".to_owned(), 3, START + 2));
    assert!(Arc::ptr_eq(&early, by_id.as_ref().unwrap()));
    let by_hash = loaded("2a", &["h1", "h2"]);
    assert_eq!(cache.settle_by_hash("h2", &by_hash, START + 3), vec![1]);
    let late = served(cache.get_map_by_hash("h2".to_owned(), 4, START + 4));
    assert!(Arc::ptr_eq(&late, by_hash.as_ref().unwrap()));
    assert_eq!(*late, *early);
}

#[test]
fn loader_outcome_is_classified() {
    let decoded = response_to_map(Ok(Ok(record("2a", &["h1"]))));
    assert_eq!(*decoded.unwrap(), record("2a", &["h1"]));
    let no_json = reqwest::Client::new().get("no url at all").build().unwrap_err();
    match response_to_map(Ok(Err(no_json))) {
        Err(reason) => assert!(matches!(*reason, RequestError::JsonError(_))),
        Ok(_) => panic!("expected a failure"),
    }
    match response_to_map(Err(RequestError::StatusCodeError(404))) {
        Err(reason) => assert!(matches!(*reason, RequestError::StatusCodeError(404))),
        Ok(_) => panic!("expected a failure"),
    }
    match response_to_map(Err(RequestError::SemaphoreError)) {
        Err(reason) => assert!(matches!(*reason, RequestError::SemaphoreError)),
        Ok(_) => panic!("expected a failure"),
    }
}

#[test]
fn queued_request_is_the_same_whichever_client_builds_it() {
    let plain = reqwest::Client::new();
    let tuned = reqwest::Client::builder()
        .user_agent("a map cache")
        .timeout(std::time::Duration::from_secs(5))
        .build()
        .unwrap();
    let mut built = Vec::new();
    for client in [plain, tuned] {
        let mut cache = MapCache::setup(RequestManager::new(client, 8, 9, 1_050_000_000));
        assert!(matches!(cache.get_map_by_id(0xbeef, 1, START), Lookup::Started));
        match cache.dispatch(START) {
            Dispatch::Execute(item) => built.push(item.request),
            other => panic!("expected a request to send, got {:?}", other),
        }
    }
    assert_eq!(built[0].url(), built[1].url());
    assert_eq!(built[0].url().as_str(), "https://api.beatsaver.com/maps/id/beef");
    assert_eq!(built[0].method(), built[1].method());
    assert_eq!(built[0].headers(), built[1].headers());
    assert_eq!(built[0].timeout(), built[1].timeout());
    assert!(built[0].body().is_none() && built[1].body().is_none());
}
