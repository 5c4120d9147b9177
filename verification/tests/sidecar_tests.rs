use nyx_daemon::cache::{Cache, CACHE_TTL_SECS};
use nyx_daemon::entropy::{
    combine_entropy, hex_to_bytes, parse_hex_u64, route_for, AleaRoute, BlockchainNoise,
    EntropyState,
};
use nyx_daemon::hypnos::{extract_keywords, flow_asleep, DreamState, SleepTransition};
use nyx_daemon::ribosome::{init, synthesize};
use nyx_daemon::text::request_target;

#[test]
fn cache_set_and_get_fresh() {
    let mut c = Cache::new();
    assert_eq!(c.size(), 0);
    c.set("k", "v", 1_000);
    assert_eq!(c.size(), 1);
    assert_eq!(c.get("k", 1_000), Some("v".to_owned()));
    assert_eq!(c.get("k", 1_000 + CACHE_TTL_SECS - 1), Some("v".to_owned()));
    assert_eq!(c.get("missing", 1_000), None);
}

#[test]
fn cache_entry_expires() {
    let mut c = Cache::new();
    c.set("k", "v", 1_000);
    assert_eq!(c.get("k", 1_000 + CACHE_TTL_SECS), None);
    // an expired entry still occupies its slot
    assert_eq!(c.size(), 1);
}

#[test]
fn cache_overwrite_refreshes() {
    let mut c = Cache::new();
    c.set("k", "old", 1_000);
    c.set("k", "new", 5_000);
    assert_eq!(c.size(), 1);
    assert_eq!(c.get("k", 5_500), Some("new".to_owned()));
}

#[test]
fn cache_clear_empties() {
    let mut c = Cache::new();
    c.set("a", "1", 10);
    c.set("b", "2", 10);
    assert_eq!(c.size(), 2);
    c.clear();
    assert_eq!(c.size(), 0);
    assert_eq!(c.get("a", 10), None);
}

#[test]
fn synthesize_finds_known_concepts() {
    let k = init();
    assert_eq!(
        synthesize(&k, "tell me about the network"),
        Some("same pattern everywhere".to_owned())
    );
    assert_eq!(synthesize(&k, "what is entropy?"), Some("info = disorder = life".to_owned()));
    assert_eq!(synthesize(&k, "nothing relevant here"), None);
}

#[test]
fn synthesize_is_case_insensitive() {
    let k = init();
    // fails if lowercasing returned its input unchanged
    assert_eq!(synthesize(&k, "LEARNING IS GREAT"), Some("universal adaptation".to_owned()));
    assert_eq!(synthesize(&k, "EmErGeNcE"), Some("whole > sum of parts".to_owned()));
}

#[test]
fn hex_to_bytes_decodes_pairs() {
    assert_eq!(hex_to_bytes("deadbeef"), vec![0xde, 0xad, 0xbe, 0xef]);
    assert_eq!(hex_to_bytes("DEADBEEF"), vec![0xde, 0xad, 0xbe, 0xef]);
    assert_eq!(hex_to_bytes(""), Vec::<u8>::new());
    // a trailing lone character is dropped
    assert_eq!(hex_to_bytes("abc"), vec![0xab]);
    // a pair that is not fully hex is skipped
    assert_eq!(hex_to_bytes("zzde"), vec![0xde]);
}

#[test]
fn parse_hex_u64_values() {
    assert_eq!(parse_hex_u64("1a"), 26);
    assert_eq!(parse_hex_u64("0x1A"), 26);
    assert_eq!(parse_hex_u64("0"), 0);
    assert_eq!(parse_hex_u64(""), 0);
    assert_eq!(parse_hex_u64("0x"), 0);
    assert_eq!(parse_hex_u64("xyz"), 0);
    assert_eq!(parse_hex_u64("ffffffffffffffff"), u64::MAX);
    // seventeen digits no longer fit
    assert_eq!(parse_hex_u64("10000000000000000"), 0);
    // every leading literal 0x is stripped
    assert_eq!(parse_hex_u64("0x0x5"), 5);
}

#[test]
fn combine_entropy_is_deterministic() {
    let sources = vec![vec![1u8, 2, 3], vec![4u8, 5]];
    let a = combine_entropy(&sources, 77);
    let b = combine_entropy(&sources, 77);
    assert_eq!(a, b);
    assert_eq!(a.len(), 32);
    let c = combine_entropy(&sources, 78);
    assert_ne!(a, c);
}

#[test]
fn entropy_state_refresh() {
    let mut state = EntropyState::new();
    assert_eq!(state.update_count, 0);
    let noise = BlockchainNoise {
        entropy: vec![9u8; 32],
        timestamp: 1_700_000_000,
        block_height: 800_000,
        tx_count: 2_000,
        source: "bitcoin".to_owned(),
        fetched_at: "2023-11-14T22:13:20Z".to_owned(),
    };
    state.apply_refresh(
        Some(noise),
        None,
        None,
        vec![1u8; 32],
        123_456_789,
        "2023-11-14T22:13:21Z".to_owned(),
    );
    assert_eq!(state.update_count, 1);
    assert_eq!(state.combined_entropy.len(), 32);
    assert_eq!(state.last_update, "2023-11-14T22:13:21Z");
    assert!(state.bitcoin.is_some());
    assert!(state.ethereum.is_none());
    assert_eq!(state.bitcoin.as_ref().unwrap().block_height, 800_000);

    let first_digest = state.combined_entropy.clone();
    state.apply_refresh(
        None,
        None,
        None,
        vec![1u8; 32],
        123_456_789,
        "2023-11-14T22:14:21Z".to_owned(),
    );
    assert_eq!(state.update_count, 2);
    // losing the bitcoin source changes the mix
    assert_ne!(state.combined_entropy, first_digest);
}

#[test]
fn flow_asleep_needs_both_vitals_at_zero() {
    assert!(flow_asleep(0, 0));
    assert!(!flow_asleep(1, 0));
    assert!(!flow_asleep(0, 1));
    assert!(!flow_asleep(3, 7));
}

#[test]
fn dream_watcher_transitions() {
    let mut d = DreamState::new();
    assert!(!d.sleeping);
    assert_eq!(d.watcher_step(true), SleepTransition::FellAsleep);
    assert!(d.sleeping);
    assert_eq!(d.watcher_step(true), SleepTransition::NoChange);
    assert_eq!(d.watcher_step(false), SleepTransition::WokeUp);
    assert!(!d.sleeping);
    assert_eq!(d.watcher_step(false), SleepTransition::NoChange);
}

#[test]
fn dream_counters_accumulate() {
    let mut d = DreamState::new();
    d.note_consolidation(3);
    d.note_consolidation(2);
    assert_eq!(d.dreams_count, 2);
    assert_eq!(d.connections_found, 5);
}

#[test]
fn extract_keywords_trims_filters_and_lowercases() {
    let kws = extract_keywords("Synapse, CETTE apprentissage (neurones) et r\u{ea}ve");
    assert_eq!(kws, vec!["synapse", "apprentissage", "neurones"]);
}

#[test]
fn extract_keywords_length_bounds() {
    // five bytes or fewer, and twenty bytes or more, are dropped
    let kws = extract_keywords("short abcdef abcdefghijklmnopqrst");
    assert_eq!(kws, vec!["abcdef"]);
}

#[test]
fn request_target_extraction() {
    assert_eq!(request_target("GET /entropy HTTP/1.1\r\nHost: x\r\n\r\n"), "/entropy");
    assert_eq!(request_target("POST /modulate HTTP/1.1\r\n\r\n{}"), "/modulate");
    assert_eq!(request_target(""), "/");
    assert_eq!(request_target("GET"), "/");
}

#[test]
fn alea_routes() {
    assert_eq!(route_for("/health"), AleaRoute::Health);
    assert_eq!(route_for("/"), AleaRoute::Health);
    assert_eq!(route_for("/entropy"), AleaRoute::Entropy);
    assert_eq!(route_for("/drift"), AleaRoute::Drift);
    assert_eq!(route_for("/refresh"), AleaRoute::Refresh);
    assert_eq!(route_for("/modulate"), AleaRoute::Modulate);
    assert_eq!(route_for("/unknown"), AleaRoute::NotFound);
}
