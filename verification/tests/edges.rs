//! Streams, caches, tables and configuration.

use rex_sim::builder::{clamp_concurrency, RexSim, RexSimBuilder};
use rex_sim::cache::{cached, cached_fetch, Discovery};
use rex_sim::exex::{
    on_exex_event, CanonStateNotification, ExExAction, ExExEvent, ExExNotification,
};
use rex_sim::fetch::FetchConfig;
use rex_sim::primitives::{Address, Duplicate, U256};
use rex_sim::sort::sort;
use rex_sim::stream::{NotificationStream, StreamAction, StreamEvent};
use rex_sim::table::Table;
use rex_sim::transitions::CacheMergeStats;

fn addr(n: u64) -> Address {
    Address { hi: 0, lo: n as u128 }
}

fn wait(action: StreamAction<u8>) -> u64 {
    match action {
        StreamAction::ConnectAfter { ms } => ms,
        _ => panic!("expected a wait"),
    }
}

#[test]
fn backoff_doubles_to_its_bound() {
    let mut stream = NotificationStream::new("http://127.0.0.1:10000".to_string());
    assert_eq!(stream.endpoint(), "http://127.0.0.1:10000");
    assert!(matches!(stream.next::<u8>(), StreamAction::Connect));
    let waits: Vec<u64> =
        (0..7).map(|_| wait(stream.on_event(StreamEvent::ConnectFailed))).collect();
    assert_eq!(waits, vec![1_000, 2_000, 4_000, 8_000, 16_000, 30_000, 30_000]);
}

#[test]
fn backoff_resets_on_decoding_and_not_on_connecting() {
    let mut stream = NotificationStream::new("x".to_string());
    assert_eq!(wait(stream.on_event(StreamEvent::ConnectFailed)), 1_000);
    assert!(matches!(
        stream.on_event::<u8>(StreamEvent::Connected),
        StreamAction::Receive
    ));
    assert!(matches!(
        stream.on_event::<u8>(StreamEvent::Undecodable),
        StreamAction::Receive
    ));
    assert!(matches!(
        stream.on_event::<u8>(StreamEvent::Closed),
        StreamAction::Connect
    ));
    assert_eq!(wait(stream.on_event(StreamEvent::ConnectFailed)), 2_000);
    stream.on_event::<u8>(StreamEvent::Connected);
    assert!(matches!(
        stream.on_event(StreamEvent::Decoded(9u8)),
        StreamAction::Deliver(9)
    ));
    assert!(matches!(stream.next::<u8>(), StreamAction::Receive));
    assert!(matches!(
        stream.on_event::<u8>(StreamEvent::Failed),
        StreamAction::Connect
    ));
    assert_eq!(wait(stream.on_event(StreamEvent::ConnectFailed)), 1_000);
}

#[test]
fn node_side_forwards_and_finishes() {
    let commit = CanonStateNotification::Commit { new: 7u64 };
    match on_exex_event(ExExEvent::Canon(Some(commit))) {
        ExExAction::Forward(sent) => {
            assert!(matches!(sent, ExExNotification::ChainCommitted { new: 7 }));
            assert!(matches!(
                on_exex_event(ExExEvent::Processed(sent)),
                ExExAction::Finish(7)
            ));
        }
        _ => panic!("expected to forward"),
    }
    let reorg = CanonStateNotification::Reorg { old: 7u64, new: 8 };
    match on_exex_event(ExExEvent::Canon(Some(reorg))) {
        ExExAction::Forward(sent) => {
            assert!(matches!(sent, ExExNotification::ChainReorged { old: 7, new: 8 }));
            assert!(matches!(
                on_exex_event(ExExEvent::Processed(sent)),
                ExExAction::Finish(8)
            ));
        }
        _ => panic!("expected to forward"),
    }
    let revert = ExExNotification::ChainReverted { old: 7u64 };
    assert!(matches!(
        on_exex_event(ExExEvent::Processed(revert)),
        ExExAction::Continue
    ));
    assert!(matches!(
        on_exex_event(ExExEvent::<u64>::Canon(None)),
        ExExAction::Continue
    ));
    assert!(matches!(on_exex_event(ExExEvent::<u64>::Ended), ExExAction::Stop));
    assert!(matches!(on_exex_event(ExExEvent::<u64>::Failed), ExExAction::Stop));
}

#[test]
fn cached_fetch_remembers_success_only() {
    let mut cache: Table<u64, U256> = Table::new();
    assert!(cached(&cache, &1).is_none());
    let failed: Result<U256, u8> = cached_fetch(&mut cache, 1, Err(5));
    assert_eq!(failed, Err(5));
    assert!(cached(&cache, &1).is_none());
    let fetched: Result<U256, u8> = cached_fetch(&mut cache, 1, Ok(U256::from_u64(9)));
    assert_eq!(fetched, Ok(U256::from_u64(9)));
    assert_eq!(cached(&cache, &1), Some(U256::from_u64(9)));
}

#[test]
fn discovery_fetches_what_is_missing() {
    let mut cache: Table<u64, U256> = Table::new();
    cache.insert(2, U256::from_u64(20));
    let mut discovery: Discovery<u64, U256> = Discovery::new(&vec![1, 2, 3, 1]);
    let mut asked = vec![];
    while let Some(key) = discovery.next_missing(&cache) {
        asked.push(key);
        let fetched: Result<U256, u8> = Ok(U256::from_u64(key * 10));
        discovery.cached_discover(&mut cache, key, fetched).unwrap();
    }
    assert_eq!(asked, vec![1, 3]);
    assert_eq!(
        discovery.into_found(),
        vec![U256::from_u64(10), U256::from_u64(30)]
    );
    assert_eq!(cache.len(), 3);
}

#[test]
fn discovery_ends_with_the_first_error() {
    let mut cache: Table<u64, U256> = Table::new();
    let mut discovery: Discovery<u64, U256> = Discovery::new(&vec![1, 2]);
    let key = discovery.next_missing(&cache).unwrap();
    let failed: Result<(), u8> = discovery.cached_discover(&mut cache, key, Err(7));
    assert_eq!(failed, Err(7));
    assert!(cache.is_empty());
}

#[test]
fn values_before_the_first_error_stay() {
    let mut cache: Table<u64, U256> = Table::new();
    cache.insert(2, U256::from_u64(20));
    let mut discovery: Discovery<u64, U256> = Discovery::new(&vec![1, 2, 3, 4, 5]);
    let mut outcome: Result<(), u8> = Ok(());
    while let Some(key) = discovery.next_missing(&cache) {
        let fetched = if key == 4 { Err(7) } else { Ok(U256::from_u64(key * 10)) };
        outcome = discovery.cached_discover(&mut cache, key, fetched);
        if outcome.is_err() {
            break;
        }
    }
    assert_eq!(outcome, Err(7));
    assert_eq!(cache.len(), 3);
    for key in 1..4u64 {
        assert_eq!(cache.get(&key), Some(&U256::from_u64(key * 10)));
    }
}

#[test]
fn tables_hold_what_was_put_in() {
    let mut table: Table<Address, U256> = Table::new();
    assert!(table.is_empty());
    table.insert(addr(5), U256::from_u64(1));
    table.insert(addr(3), U256::from_u64(2));
    table.insert(addr(5), U256::from_u64(3));
    assert_eq!(table.len(), 2);
    assert_eq!(table.get(&addr(5)), Some(&U256::from_u64(3)));
    assert_eq!(table.get(&addr(4)), None);
    assert_eq!(table.entry_at(0).0, addr(5));
    assert_eq!(table.entry_at(1).0, addr(3));
    table.replace(&addr(4), U256::from_u64(9));
    assert_eq!(table.len(), 2);
    table.replace(&addr(3), U256::from_u64(9));
    assert_eq!(table.get(&addr(3)), Some(&U256::from_u64(9)));

    let copy = table.duplicate();
    let mut other: Table<Address, U256> = Table::new();
    other.insert(addr(3), U256::from_u64(30));
    other.insert(addr(6), U256::from_u64(60));
    table.extend(other);
    assert_eq!(table.len(), 3);
    assert_eq!(table.get(&addr(3)), Some(&U256::from_u64(30)));
    assert_eq!(copy.len(), 2);
    assert_eq!(copy.get(&addr(3)), Some(&U256::from_u64(9)));

    let mut wide: Table<(Address, U256), U256> = Table::new();
    let high = Address { hi: 1, lo: 0 };
    wide.insert((addr(0), U256 { hi: 1, lo: 0 }), U256::from_u64(1));
    wide.insert((addr(0), U256 { hi: 0, lo: 1 }), U256::from_u64(2));
    wide.insert((high, U256 { hi: 0, lo: 1 }), U256::from_u64(3));
    assert_eq!(wide.len(), 3);
    assert_eq!(wide.get(&(high, U256 { hi: 0, lo: 1 })), Some(&U256::from_u64(3)));
    assert_eq!(wide.get(&(high, U256 { hi: 1, lo: 1 })), None);
}

#[test]
fn sorting() {
    assert_eq!(sort(vec![5u64, 1, 3, 1]), vec![1, 1, 3, 5]);
    let high = Address { hi: 1, lo: 0 };
    assert_eq!(
        sort(vec![high, addr(2), addr(1)]),
        vec![addr(1), addr(2), high]
    );
    assert_eq!(sort(Vec::<u64>::new()), Vec::<u64>::new());
}

#[test]
fn concurrency_is_clamped() {
    assert_eq!(clamp_concurrency(0), 1);
    assert_eq!(clamp_concurrency(1), 1);
    assert_eq!(clamp_concurrency(1024), 1024);
    assert_eq!(clamp_concurrency(1025), 1024);
    assert_eq!(clamp_concurrency(77), 77);
}

#[test]
fn fetch_configuration() {
    let default = FetchConfig::default();
    assert_eq!(default.account, 100);
    assert_eq!(default.code, 100);
    assert_eq!(default.storage, 100);
    assert_eq!(default.block_hash, 100);
    assert_eq!(default.rpc_timeout_ms, 10_000);
    assert_eq!(default.wait_timeout_ms, 30_000);
    assert_eq!(default.flush_timeout_ms, 15_000);
    assert_eq!(FetchConfig::uniform(100), default);
    assert_eq!(FetchConfig::uniform(3).storage, 3);
}

#[test]
fn simulator_is_built_and_started_once() {
    let builder: RexSimBuilder<u8> = RexSim::builder();
    assert!(builder.is_buildable());
    let mut sim = builder
        .rpc_endpoint("http://node:8545".to_string())
        .log_sink(4)
        .fetch(FetchConfig { account: 0, code: 5_000, ..FetchConfig::default() })
        .build();
    assert_eq!(sim.block(None), 0);
    assert!(!sim.is_spawned());
    let launch = sim.spawn();
    assert!(sim.is_spawned());
    assert_eq!(launch.rpc_endpoint, "http://node:8545");
    assert_eq!(launch.log_sink, Some(4));
    assert_eq!(launch.fetch.account, 1);
    assert_eq!(launch.fetch.code, 1024);
    assert_eq!(launch.fetch.storage, 100);
    assert!(launch.manager.awaits_ready());
    assert_eq!(launch.manager.state().generation(), 0);

    let mut plain: RexSim<u8> = RexSimBuilder::default().build();
    assert_eq!(plain.spawn().rpc_endpoint, "http://127.0.0.1:8545");
}

#[test]
fn impatient_reader_is_not_buildable() {
    let builder: RexSimBuilder<u8> = RexSimBuilder::new().fetch(FetchConfig {
        rpc_timeout_ms: 10,
        wait_timeout_ms: 10,
        ..FetchConfig::default()
    });
    assert!(!builder.is_buildable());
}

#[test]
fn merge_stats_by_name() {
    let stats = CacheMergeStats {
        accounts_merged: 1,
        accounts_discarded: 2,
        storage_merged: 3,
        storage_discarded: 4,
        block_hashes_merged: 5,
        block_hashes_discarded: 6,
        code_merged: 7,
    };
    assert_eq!(
        stats.iter(),
        vec![
            ("accounts", 1, 2),
            ("storage", 3, 4),
            ("block_hashes", 5, 6),
            ("code", 7, 0),
        ]
    );
}
