//! Sessions and their stores.

use ferrotunnel::net::{IpAddr, SocketAddr};
use ferrotunnel::session::{Session, SessionStore, SessionStoreError};
use ferrotunnel::sharded::{shard_index, SessionStoreBackend, ShardedSessionStore};

const SECOND: u128 = 1_000_000_000;

fn addr() -> SocketAddr {
    SocketAddr::new(IpAddr::V4(127, 0, 0, 1), 1234)
}

fn session(id: u128, tunnel_id: &str) -> Session {
    Session::new(id, tunnel_id.to_string(), addr(), "token".to_string(), vec![], None, 0)
}

fn carrying(id: u128, tunnel_id: &str, capability: &str, multiplexer: u64) -> Session {
    Session::new(
        id,
        tunnel_id.to_string(),
        addr(),
        "token".to_string(),
        vec![capability.to_string()],
        Some(multiplexer),
        0,
    )
}

#[test]
fn test_session_management() {
    let mut store = SessionStore::new();
    let id = uuid::Uuid::new_v4().as_u128();
    let session = Session::new(id, "test-tunnel".into(), addr(), "token".into(), vec![], None, 0);

    store.add(session).unwrap();
    assert_eq!(store.count(), 1);

    assert!(store.get(&id).is_some());
    assert!(store.get_by_tunnel_id("test-tunnel").is_some());

    let removed = store.remove(&id);
    assert!(removed.is_some());
    assert_eq!(store.count(), 0);
    assert!(store.get_by_tunnel_id("test-tunnel").is_none());
}

#[test]
fn test_stale_cleanup() {
    let mut store = SessionStore::new();
    let id = uuid::Uuid::new_v4().as_u128();
    let now = 1000 * SECOND;
    let mut session =
        Session::new(id, "test-tunnel".into(), addr(), "token".into(), vec![], None, now);

    session.last_heartbeat = now - 100 * SECOND;
    store.add(session).unwrap();

    let count = store.cleanup_stale_sessions(now, 90 * SECOND);
    assert_eq!(count, 1);
    assert_eq!(store.count(), 0);
}

#[test]
fn test_tunnel_id_uniqueness() {
    let mut store = SessionStore::new();

    let id1 = uuid::Uuid::new_v4().as_u128();
    let session1 =
        Session::new(id1, "my-tunnel".into(), addr(), "token1".into(), vec![], None, 0);
    assert!(store.add(session1).is_ok());

    let id2 = uuid::Uuid::new_v4().as_u128();
    let session2 =
        Session::new(id2, "my-tunnel".into(), addr(), "token2".into(), vec![], None, 0);
    let result = store.add(session2);
    assert!(result.is_err());
    let err = result.unwrap_err();
    assert!(matches!(err, SessionStoreError::TunnelIdAlreadyExists(_)));
    assert!(err.message().contains("my-tunnel"));

    assert_eq!(store.count(), 1);
}

#[test]
fn test_add_or_replace() {
    let mut store = SessionStore::new();

    let id1 = uuid::Uuid::new_v4().as_u128();
    let session1 =
        Session::new(id1, "my-tunnel".into(), addr(), "token1".into(), vec![], None, 0);
    store.add_or_replace(session1);
    assert_eq!(store.count(), 1);

    let id2 = uuid::Uuid::new_v4().as_u128();
    let session2 =
        Session::new(id2, "my-tunnel".into(), addr(), "token2".into(), vec![], None, 0);
    store.add_or_replace(session2);

    assert_eq!(store.count(), 1);

    assert!(store.get(&id1).is_none());
    assert!(store.get(&id2).is_some());
    assert!(store.get_by_tunnel_id("my-tunnel").is_some());
}

#[test]
fn test_sharded_store_same_api() {
    let mut store = ShardedSessionStore::with_shards(4);
    let id = uuid::Uuid::new_v4().as_u128();
    let session = Session::new(id, "shard-tunnel".into(), addr(), "token".into(), vec![], None, 0);

    store.add(session).unwrap();
    assert_eq!(store.count(), 1);
    assert!(store.get(&id).is_some());
    assert!(store.get_by_tunnel_id("shard-tunnel").is_some());

    store.remove(&id);
    assert_eq!(store.count(), 0);
    assert!(store.get_by_tunnel_id("shard-tunnel").is_none());
}

#[test]
fn of_many_claims_to_a_tunnel_id_one_succeeds() {
    let mut store = SessionStore::new();
    let mut sharded = ShardedSessionStore::with_shards(4);
    let accepted = (0..32).filter(|i| store.add(session(*i, "race-tunnel")).is_ok()).count();
    let in_shards = (0..32).filter(|i| sharded.add(session(*i, "race-tunnel")).is_ok()).count();
    assert_eq!(accepted, 1);
    assert_eq!(store.count(), 1);
    assert_eq!(in_shards, 1);
    assert_eq!(sharded.count(), 1);
}

#[test]
fn removing_a_session_frees_its_tunnel_id() {
    let mut store = SessionStore::new();
    store.add(session(1, "a")).unwrap();
    store.add(session(2, "b")).unwrap();
    let removed = store.remove(&1).expect("it is there");
    assert_eq!(removed.tunnel_id, "a");
    assert!(store.remove(&1).is_none());
    assert!(store.add(session(3, "a")).is_ok());
    assert_eq!(store.get_by_tunnel_id("a").map(|s| s.id), Some(3));
    assert_eq!(store.get_by_tunnel_id("b").map(|s| s.id), Some(2));
}

#[test]
fn a_session_that_was_heard_of_survives_the_cleanup() {
    let mut store = SessionStore::new();
    store.add(session(1, "quiet")).unwrap();
    store.add(session(2, "heard")).unwrap();
    assert!(store.update_heartbeat(&2, 50 * SECOND));
    assert!(!store.update_heartbeat(&9, 50 * SECOND));
    assert_eq!(store.cleanup_stale_sessions(100 * SECOND, 90 * SECOND), 1);
    assert!(store.get_by_tunnel_id("quiet").is_none());
    assert_eq!(store.get(&2).map(|s| s.last_heartbeat), Some(50 * SECOND));
    // Exactly at the timeout a session is not stale.
    assert_eq!(store.cleanup_stale_sessions(140 * SECOND, 90 * SECOND), 0);
    assert_eq!(store.cleanup_stale_sessions(140 * SECOND + 1, 90 * SECOND), 1);
}

#[test]
fn a_multiplexer_is_found_by_capability() {
    let mut store = SessionStore::new();
    store.add(carrying(1, "a", "http", 10)).unwrap();
    store.add(carrying(2, "b", "tcp", 20)).unwrap();
    assert_eq!(store.find_multiplexer_with_capability("tcp"), Some(20));
    assert_eq!(store.find_multiplexer_with_capability("http"), Some(10));
    assert_eq!(store.find_multiplexer_with_capability("udp"), None);
    assert!(store.find_multiplexer().is_some());
    assert_eq!(SessionStore::new().find_multiplexer(), None);
}

#[test]
fn either_backend_answers_alike() {
    for mut backend in
        [SessionStoreBackend::default(), SessionStoreBackend::Sharded(ShardedSessionStore::new())]
    {
        backend.add(carrying(7, "t", "tcp", 70)).unwrap();
        assert!(backend.add(session(8, "t")).is_err());
        assert_eq!(backend.count(), 1);
        assert_eq!(backend.multiplexer_of("t"), Some(Some(70)));
        assert_eq!(backend.multiplexer_of("u"), None);
        assert_eq!(backend.find_multiplexer_with_capability("tcp"), Some(70));
        assert!(backend.rate_limiter(&7).is_some());
        assert!(backend.update_heartbeat(&7, 5));
        assert_eq!(backend.get(&7).map(|s| s.last_heartbeat), Some(5));
        backend.add_or_replace(session(9, "t"));
        assert!(backend.get(&7).is_none());
        assert_eq!(backend.get_by_tunnel_id("t").map(|s| s.id), Some(9));
        assert_eq!(backend.cleanup_stale_sessions(100, 10), 1);
        assert!(backend.remove(&9).is_none());
    }
}

#[test]
fn a_tunnel_id_always_falls_into_the_same_shard() {
    for n in 1..20 {
        let index = shard_index("my-tunnel", n);
        assert!(index < n);
        assert_eq!(index, shard_index("my-tunnel", n));
    }
    let spread = (0..64).map(|i| shard_index(&format!("t{i}"), 16)).max();
    assert!(spread > Some(0));
}

#[test]
fn a_session_knows_its_capabilities_and_its_age() {
    let s = carrying(1, "a", "tcp", 3);
    assert!(s.has_capability("tcp"));
    assert!(!s.has_capability("tc"));
    assert!(!s.is_stale(10, 10));
    assert!(s.is_stale(11, 10));
    // A heartbeat that lies ahead of the clock is no age at all.
    let mut ahead = session(2, "b");
    ahead.update_heartbeat(100);
    assert!(!ahead.is_stale(50, 10));
}

#[test]
fn shards_answer_as_one_store_does() {
    for n in [1, 2, 3, 16] {
        let mut plain = SessionStore::new();
        let mut sharded = ShardedSessionStore::with_shards(n);
        let steps: [(&str, u128, &str); 10] = [
            ("add", 1, "a"),
            ("add", 2, "b"),
            ("add", 3, "a"),
            ("replace", 4, "b"),
            ("remove", 1, ""),
            ("add", 3, "a"),
            ("remove", 9, ""),
            ("replace", 5, "c"),
            ("add", 5, "c"),
            ("remove", 4, ""),
        ];
        for (step, id, tunnel_id) in steps {
            match step {
                "add" => assert_eq!(
                    plain.add(session(id, tunnel_id)),
                    sharded.add(session(id, tunnel_id))
                ),
                "replace" => {
                    plain.add_or_replace(session(id, tunnel_id));
                    sharded.add_or_replace(session(id, tunnel_id));
                }
                _ => assert_eq!(
                    plain.remove(&id).map(|s| s.id),
                    sharded.remove(&id).map(|s| s.id)
                ),
            }
            assert_eq!(plain.count(), sharded.count());
            for id in 1..=9 {
                assert_eq!(plain.get(&id).is_some(), sharded.get(&id).is_some());
            }
            for t in ["a", "b", "c", "d"] {
                assert_eq!(
                    plain.get_by_tunnel_id(t).map(|s| s.id),
                    sharded.get_by_tunnel_id(t).map(|s| s.id)
                );
            }
        }
        assert_eq!(sharded.count(), 2);
    }
}

#[test]
fn the_count_follows_what_is_added_and_removed() {
    let mut plain = SessionStore::new();
    let mut sharded = ShardedSessionStore::with_shards(3);
    for id in 1..=5u128 {
        let tunnel_id = format!("t{id}");
        plain.add(session(id, &tunnel_id)).unwrap();
        sharded.add(session(id, &tunnel_id)).unwrap();
        assert_eq!(plain.count() as u128, id);
        assert_eq!(sharded.count() as u128, id);
    }
    plain.add(session(5, "t5")).unwrap();
    assert_eq!(plain.count(), 5);
    assert!(plain.remove(&1).is_some());
    assert_eq!(plain.count(), 4);
    assert!(plain.update_heartbeat(&2, 100));
    assert_eq!(plain.cleanup_stale_sessions(100, 50), 3);
    assert_eq!(plain.count(), 1);
    assert_eq!(sharded.cleanup_stale_sessions(100, 50), 5);
    assert_eq!(sharded.count(), 0);
}

#[test]
fn an_id_in_two_shards_is_removed_from_the_first() {
    let in_shard = |shard: usize| {
        (0..).map(|n| format!("t{n}")).find(|t| shard_index(t, 2) == shard).unwrap()
    };
    let (first, second) = (in_shard(0), in_shard(1));
    let heard = |tunnel_id: &str, now: u128| {
        Session::new(7, tunnel_id.to_string(), addr(), "token".to_string(), vec![], None, now)
    };
    let mut store = ShardedSessionStore::with_shards(2);
    store.add(heard(&first, 100)).unwrap();
    store.add(heard(&second, 0)).unwrap();
    assert_eq!(store.count(), 2);
    assert_eq!(store.cleanup_stale_sessions(100, 50), 1);
    assert_eq!(store.count(), 1);
    assert!(store.get_by_tunnel_id(&first).is_none());
    assert!(store.get_by_tunnel_id(&second).is_some());
}
