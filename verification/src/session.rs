//! Sessions and the stores that hold them.
//!
//! A store keeps its sessions by id, and an index from tunnel id to session id. Moments and
//! durations are counted in nanoseconds.

use vstd::prelude::*;

use crate::error::TunnelError;
use crate::net::SocketAddr;
use crate::rate_limit::{RateLimiterConfig, SessionRateLimiter, burst};
use crate::text::same_text;

verus! {

/// A concurrent map of the `dashmap` crate.
#[verifier::external_type_specification]
#[verifier::external_body]
#[verifier::reject_recursive_types(K)]
#[verifier::reject_recursive_types(V)]
#[verifier::reject_recursive_types(S)]
pub struct ExDashMap<K, V, S>(dashmap::DashMap<K, V, S>);

/// A borrowed entry of such a map.
#[verifier::external_type_specification]
#[verifier::external_body]
#[verifier::reject_recursive_types(K)]
#[verifier::reject_recursive_types(V)]
pub struct ExRef<'a, K, V>(dashmap::mapref::one::Ref<'a, K, V>);

/// Default number of shards of a [`ShardedSessionStore`].
pub const DEFAULT_SESSION_STORE_SHARDS: usize = 16;

/// An active client session.
pub struct Session {
    pub id: u128,
    pub tunnel_id: String,
    pub client_addr: SocketAddr,
    pub token: String,
    /// When the session was made.
    pub connected_at: u128,
    /// When the client was last heard of.
    pub last_heartbeat: u128,
    pub capabilities: Vec<String>,
    /// Handle of the multiplexer that serves the session.
    pub multiplexer: Option<u64>,
    pub rate_limiter: Option<SessionRateLimiter>,
}

impl Session {
    /// Whether the session has the default rate limits: a hundred streams and ten mebibytes
    /// per second, and twice as much at once.
    pub open spec fn default_limits(&self) -> bool {
        &&& self.rate_limiter is Some
        &&& self.rate_limiter->0.stream_rate() == 100
        &&& self.rate_limiter->0.bytes_rate() == 10_485_760
        &&& self.rate_limiter->0.stream_burst() == 200
        &&& self.rate_limiter->0.bytes_burst() == 20_971_520
    }

    /// Whether the session has the rate limits of a configuration, and as much at once as its
    /// burst factor allows.
    pub open spec fn limited_by(&self, rates: RateLimiterConfig) -> bool {
        &&& self.rate_limiter is Some
        &&& self.rate_limiter->0.stream_rate() == rates.streams_per_sec
        &&& self.rate_limiter->0.bytes_rate() == rates.bytes_per_sec
        &&& self.rate_limiter->0.stream_burst() == burst(rates.streams_per_sec, rates.burst_factor)
        &&& self.rate_limiter->0.bytes_burst() == burst(rates.bytes_per_sec, rates.burst_factor)
    }

    /// Whether the session offers a capability.
    pub open spec fn offers(&self, capability: Seq<char>) -> bool {
        exists|i: int| 0 <= i < self.capabilities@.len() && #[trigger] self.capabilities@[i]@ == capability
    }

    /// Whether nothing was heard of the client for longer than `timeout` at the moment `now`.
    pub open spec fn stale(&self, now: u128, timeout: u128) -> bool {
        now - self.last_heartbeat > timeout
    }

    /// Creates a session at the moment `now`, with the default rate limits.
    pub fn new(
        id: u128,
        tunnel_id: String,
        client_addr: SocketAddr,
        token: String,
        capabilities: Vec<String>,
        multiplexer: Option<u64>,
        now: u128,
    ) -> (r: Session)
        ensures
            r.id == id,
            r.tunnel_id == tunnel_id,
            r.client_addr == client_addr,
            r.token == token,
            r.connected_at == now,
            r.last_heartbeat == now,
            r.capabilities == capabilities,
            r.multiplexer == multiplexer,
            r.default_limits(),
    {
        let limits = RateLimiterConfig::default();
        Session {
            id,
            tunnel_id,
            client_addr,
            token,
            connected_at: now,
            last_heartbeat: now,
            capabilities,
            multiplexer,
            rate_limiter: Some(SessionRateLimiter::new(&limits)),
        }
    }

    /// The session with another rate limiter.
    pub fn with_rate_limiter(self, rate_limiter: SessionRateLimiter) -> (r: Session)
        ensures
            r == (Session { rate_limiter: Some(rate_limiter), ..self }),
    {
        Session {
            id: self.id,
            tunnel_id: self.tunnel_id,
            client_addr: self.client_addr,
            token: self.token,
            connected_at: self.connected_at,
            last_heartbeat: self.last_heartbeat,
            capabilities: self.capabilities,
            multiplexer: self.multiplexer,
            rate_limiter: Some(rate_limiter),
        }
    }

    /// Records that the client was heard of at the moment `now`.
    pub fn update_heartbeat(&mut self, now: u128)
        ensures
            *final(self) == (Session { last_heartbeat: now, ..*old(self) }),
    {
        self.last_heartbeat = now;
    }

    /// Whether the session offers a capability.
    pub fn has_capability(&self, capability: &str) -> (r: bool)
        ensures
            r == self.offers(capability@),
    {
        let mut i: usize = 0;
        while i < self.capabilities.len()
            invariant
                i <= self.capabilities@.len(),
                forall|j: int| 0 <= j < i ==> #[trigger] self.capabilities@[j]@ != capability@,
            decreases self.capabilities@.len() - i,
        {
            if same_text(self.capabilities[i].as_str(), capability) {
                return true;
            }
            i += 1;
        }
        false
    }

    /// Whether nothing was heard of the client for longer than `timeout` at the moment `now`.
    pub fn is_stale(&self, now: u128, timeout: u128) -> (r: bool)
        ensures
            r == self.stale(now, timeout),
    {
        now > self.last_heartbeat && now - self.last_heartbeat > timeout
    }
}

/// Error type for session store operations.
#[derive(Debug, Clone, PartialEq, Eq)]
pub enum SessionStoreError {
    /// Another session has registered the tunnel id.
    TunnelIdAlreadyExists(String),
}

impl SessionStoreError {
    /// The error as a message.
    pub open spec fn text(self) -> Seq<char> {
        match self {
            SessionStoreError::TunnelIdAlreadyExists(id) => "tunnel ID '"@ + id@
                + "' is already registered by another session"@,
        }
    }

    /// The error as a message.
    pub fn message(&self) -> (r: String)
        ensures
            r@ == self.text(),
    {
        match self {
            SessionStoreError::TunnelIdAlreadyExists(id) => {
                let mut text = "tunnel ID '".to_owned();
                text.append(id.as_str());
                text.append("' is already registered by another session");
                text
            },
        }
    }

    /// The error as the tunnel reports it.
    pub fn into_tunnel_error(self) -> (r: TunnelError)
        ensures
            r is InvalidState,
            r.text() == self.text(),
    {
        TunnelError::InvalidState(self.message())
    }
}

/// The sessions that a map holds, by id.
pub uninterp spec fn sessions_of(map: dashmap::DashMap<u128, Session>) -> Map<u128, Session>;

/// The session ids that a map holds, by tunnel id.
pub uninterp spec fn index_of(map: dashmap::DashMap<String, u128>) -> Map<Seq<char>, u128>;

/// The session that a borrowed entry holds.
pub uninterp spec fn session_at(entry: dashmap::mapref::one::Ref<'_, u128, Session>) -> Session;

/// Makes an empty map of sessions: `dashmap::DashMap::new`.
#[verifier::external_body]
fn new_sessions() -> (r: dashmap::DashMap<u128, Session>)
    ensures
        sessions_of(r) == empty_store().sessions,
{
    dashmap::DashMap::new()
}

/// Makes an empty index: `dashmap::DashMap::new`.
#[verifier::external_body]
fn new_index() -> (r: dashmap::DashMap<String, u128>)
    ensures
        index_of(r) == empty_store().index,
{
    dashmap::DashMap::new()
}

/// Puts a session into a map: `dashmap::DashMap::insert`. A session under the same id is
/// replaced.
#[verifier::external_body]
fn insert_session(map: &mut dashmap::DashMap<u128, Session>, id: u128, session: Session)
    ensures
        sessions_of(*final(map)) == sessions_of(*old(map)).insert(id, session),
{
    map.insert(id, session);
}

/// Takes a session out of a map: `dashmap::DashMap::remove`.
#[verifier::external_body]
fn remove_session(map: &mut dashmap::DashMap<u128, Session>, id: u128) -> (r: Option<Session>)
    ensures
        sessions_of(*final(map)) == sessions_of(*old(map)).remove(id),
        r is Some <==> sessions_of(*old(map)).contains_key(id),
        r is Some ==> r->0 == sessions_of(*old(map))[id],
{
    map.remove(&id).map(|(_, session)| session)
}

/// Borrows a session of a map: `dashmap::DashMap::get`.
#[verifier::external_body]
fn get_session<'a>(map: &'a dashmap::DashMap<u128, Session>, id: u128) -> (r: Option<
    dashmap::mapref::one::Ref<'a, u128, Session>,
>)
    ensures
        r is Some <==> sessions_of(*map).contains_key(id),
        r is Some ==> session_at(r->0) == sessions_of(*map)[id],
{
    map.get(&id)
}

/// The session behind a borrowed entry: `dashmap::mapref::one::Ref::value`.
#[verifier::external_body]
pub(crate) fn entry_session<'b, 'a>(entry: &'b dashmap::mapref::one::Ref<'a, u128, Session>) -> (r: &'b Session)
    ensures
        *r == session_at(*entry),
{
    entry.value()
}

/// Whether there are exactly `n` of these ids.
pub open spec fn number_of(ids: Set<u128>, n: nat) -> bool {
    ids.finite() && ids.len() == n
}

/// The number of sessions in a map, of which there are finitely many: `dashmap::DashMap::len`.
#[verifier::external_body]
fn count_sessions(map: &dashmap::DashMap<u128, Session>) -> (r: usize)
    ensures
        number_of(sessions_of(*map).dom(), r as nat),
{
    map.len()
}

/// The ids of the sessions in a map, each once, in an order that is left open:
/// `dashmap::DashMap::iter`.
#[verifier::external_body]
fn session_ids(map: &dashmap::DashMap<u128, Session>) -> (r: Vec<u128>)
    ensures
        r@.no_duplicates(),
        forall|id: u128| #[trigger] r@.contains(id) <==> sessions_of(*map).contains_key(id),
{
    map.iter().map(|entry| *entry.key()).collect()
}

/// Claims a tunnel id for a session unless it is taken, and returns the session that has it
/// already: `dashmap::DashMap::entry`.
#[verifier::external_body]
fn claim_tunnel(map: &mut dashmap::DashMap<String, u128>, tunnel_id: String, id: u128) -> (r: Option<
    u128,
>)
    ensures
        r is Some <==> index_of(*old(map)).contains_key(tunnel_id@),
        r is Some ==> r->0 == index_of(*old(map))[tunnel_id@] && index_of(*final(map)) == index_of(
            *old(map),
        ),
        r is None ==> index_of(*final(map)) == index_of(*old(map)).insert(tunnel_id@, id),
{
    match map.entry(tunnel_id) {
        dashmap::mapref::entry::Entry::Occupied(entry) => Some(*entry.get()),
        dashmap::mapref::entry::Entry::Vacant(entry) => {
            entry.insert(id);
            None
        },
    }
}

/// Sets the session of a tunnel id: `dashmap::DashMap::insert`.
#[verifier::external_body]
fn insert_tunnel(map: &mut dashmap::DashMap<String, u128>, tunnel_id: String, id: u128)
    ensures
        index_of(*final(map)) == index_of(*old(map)).insert(tunnel_id@, id),
{
    map.insert(tunnel_id, id);
}

/// Takes a tunnel id out of an index: `dashmap::DashMap::remove`.
#[verifier::external_body]
fn remove_tunnel(map: &mut dashmap::DashMap<String, u128>, tunnel_id: &str) -> (r: Option<u128>)
    ensures
        index_of(*final(map)) == index_of(*old(map)).remove(tunnel_id@),
        r is Some <==> index_of(*old(map)).contains_key(tunnel_id@),
        r is Some ==> r->0 == index_of(*old(map))[tunnel_id@],
{
    map.remove(tunnel_id).map(|(_, id)| id)
}

/// The session id under a tunnel id: `dashmap::DashMap::get`.
#[verifier::external_body]
fn get_tunnel(map: &dashmap::DashMap<String, u128>, tunnel_id: &str) -> (r: Option<u128>)
    ensures
        r is Some <==> index_of(*map).contains_key(tunnel_id@),
        r is Some ==> r->0 == index_of(*map)[tunnel_id@],
{
    map.get(tunnel_id).map(|entry| *entry.value())
}

/// What a session store holds.
pub struct StoreView {
    /// The sessions by id.
    pub sessions: Map<u128, Session>,
    /// The session ids by tunnel id.
    pub index: Map<Seq<char>, u128>,
}

/// A store that holds nothing.
pub open spec fn empty_store() -> StoreView {
    StoreView { sessions: Map::empty(), index: Map::empty() }
}

/// Whether another session has registered the tunnel id of `session`.
pub open spec fn conflict(store: StoreView, session: Session) -> bool {
    store.index.contains_key(session.tunnel_id@) && store.index[session.tunnel_id@] != session.id
}

/// The store with `session` added.
pub open spec fn added(store: StoreView, session: Session) -> StoreView {
    StoreView {
        sessions: store.sessions.insert(session.id, session),
        index: store.index.insert(session.tunnel_id@, session.id),
    }
}

/// The store with `session` in the place of any other that has its tunnel id.
pub open spec fn replaced(store: StoreView, session: Session) -> StoreView {
    StoreView {
        sessions: if conflict(store, session) {
            store.sessions.remove(store.index[session.tunnel_id@]).insert(session.id, session)
        } else {
            store.sessions.insert(session.id, session)
        },
        index: store.index.insert(session.tunnel_id@, session.id),
    }
}

/// The store without the session `id` and without its tunnel id.
pub open spec fn removed(store: StoreView, id: u128) -> StoreView {
    if store.sessions.contains_key(id) {
        StoreView {
            sessions: store.sessions.remove(id),
            index: store.index.remove(store.sessions[id].tunnel_id@),
        }
    } else {
        store
    }
}

/// The session that a tunnel id leads to.
pub open spec fn lookup(store: StoreView, tunnel_id: Seq<char>) -> Option<Session> {
    if store.index.contains_key(tunnel_id) && store.sessions.contains_key(store.index[tunnel_id]) {
        Some(store.sessions[store.index[tunnel_id]])
    } else {
        None
    }
}

/// The ids of the sessions that are stale.
pub open spec fn stale_ids(store: StoreView, now: u128, timeout: u128) -> Set<u128> {
    store.sessions.dom().filter(|id: u128| store.sessions[id].stale(now, timeout))
}

/// The tunnel ids of the sessions with the given ids.
pub open spec fn tunnels_of(store: StoreView, ids: Set<u128>) -> Set<Seq<char>> {
    Set::new(
        |t: Seq<char>|
            exists|id: u128|
                ids.contains(id) && store.sessions.contains_key(id)
                    && #[trigger] store.sessions[id].tunnel_id@ == t,
    )
}

/// The store without the sessions with the given ids and without their tunnel ids.
pub open spec fn without(store: StoreView, ids: Set<u128>) -> StoreView {
    StoreView {
        sessions: store.sessions.remove_keys(ids),
        index: store.index.remove_keys(tunnels_of(store, ids)),
    }
}

/// Whether sessions and index agree: every session is found under its own tunnel id, and the
/// index leads to nothing else.
pub open spec fn consistent(store: StoreView) -> bool {
    &&& forall|id: u128| #[trigger]
        store.sessions.contains_key(id) ==> store.sessions[id].id == id && store.index.contains_key(
            store.sessions[id].tunnel_id@,
        ) && store.index[store.sessions[id].tunnel_id@] == id
    &&& forall|t: Seq<char>| #[trigger]
        store.index.contains_key(t) ==> store.sessions.contains_key(store.index[t])
            && store.sessions[store.index[t]].tunnel_id@ == t
}

/// Whether a session has a multiplexer.
pub open spec fn some_multiplexer(store: StoreView) -> bool {
    exists|id: u128| #[trigger]
        store.sessions.contains_key(id) && store.sessions[id].multiplexer is Some
}

/// Whether a session that offers a capability has a multiplexer.
pub open spec fn capable_multiplexer(store: StoreView, capability: Seq<char>) -> bool {
    exists|id: u128| #[trigger]
        store.sessions.contains_key(id) && store.sessions[id].multiplexer is Some
            && store.sessions[id].offers(capability)
}

/// Session store: sessions by id, and an index of their tunnel ids.
pub struct SessionStore {
    sessions: dashmap::DashMap<u128, Session>,
    tunnel_index: dashmap::DashMap<String, u128>,
}

impl View for SessionStore {
    type V = StoreView;

    closed spec fn view(&self) -> StoreView {
        StoreView {
            sessions: sessions_of(self.sessions),
            index: index_of(self.tunnel_index),
        }
    }
}

impl Default for SessionStore {
    fn default() -> (r: SessionStore)
        ensures
            r@ == empty_store(),
    {
        SessionStore::new()
    }
}

impl SessionStore {
    /// Creates an empty store.
    pub fn new() -> (r: SessionStore)
        ensures
            r@ == empty_store(),
    {
        SessionStore { sessions: new_sessions(), tunnel_index: new_index() }
    }

    /// Adds a new session, unless its tunnel id is registered by a different session.
    pub fn add(&mut self, session: Session) -> (r: Result<(), SessionStoreError>)
        ensures
            r is Err <==> conflict(old(self)@, session),
            r is Ok ==> final(self)@ == added(old(self)@, session),
            r is Err ==> final(self)@ == old(self)@,
            r matches Err(e) ==> e->TunnelIdAlreadyExists_0@ == session.tunnel_id@,
    {
        let ghost before = self@;
        let id: u128 = session.id;
        match claim_tunnel(&mut self.tunnel_index, session.tunnel_id.clone(), id) {
            Some(owner) => {
                if owner != id {
                    return Err(SessionStoreError::TunnelIdAlreadyExists(session.tunnel_id));
                }
                proof {
                    assert(before.index.insert(session.tunnel_id@, id) =~= before.index);
                }
            },
            None => {},
        }
        insert_session(&mut self.sessions, id, session);
        Ok(())
    }

    /// Adds a session in the place of any other with the same tunnel id, as on reconnection.
    pub fn add_or_replace(&mut self, session: Session)
        ensures
            final(self)@ == replaced(old(self)@, session),
    {
        let ghost before = self@;
        let tunnel_id = session.tunnel_id.clone();
        let id: u128 = session.id;
        if let Some(old_id) = remove_tunnel(&mut self.tunnel_index, tunnel_id.as_str()) {
            if old_id != id {
                let _ = remove_session(&mut self.sessions, old_id);
            }
        }
        insert_tunnel(&mut self.tunnel_index, tunnel_id, id);
        insert_session(&mut self.sessions, id, session);
        proof {
            assert(self@.index =~= before.index.insert(session.tunnel_id@, id));
        }
    }

    /// Borrows a session by id.
    pub fn get(&self, id: &u128) -> (r: Option<dashmap::mapref::one::Ref<'_, u128, Session>>)
        ensures
            r is Some <==> self@.sessions.contains_key(*id),
            r matches Some(e) ==> session_at(e) == self@.sessions[*id],
    {
        get_session(&self.sessions, *id)
    }

    /// Borrows a session by tunnel id.
    pub fn get_by_tunnel_id(&self, tunnel_id: &str) -> (r: Option<
        dashmap::mapref::one::Ref<'_, u128, Session>,
    >)
        ensures
            r is Some <==> lookup(self@, tunnel_id@) is Some,
            r matches Some(e) ==> lookup(self@, tunnel_id@) == Some(session_at(e)),
    {
        match get_tunnel(&self.tunnel_index, tunnel_id) {
            Some(id) => get_session(&self.sessions, id),
            None => None,
        }
    }

    /// Records that the client of a session was heard of at the moment `now`; `false` where
    /// there is no such session.
    pub fn update_heartbeat(&mut self, id: &u128, now: u128) -> (r: bool)
        ensures
            r == old(self)@.sessions.contains_key(*id),
            r ==> final(self)@ == (StoreView {
                sessions: old(self)@.sessions.insert(
                    *id,
                    Session { last_heartbeat: now, ..old(self)@.sessions[*id] },
                ),
                index: old(self)@.index,
            }),
            !r ==> final(self)@ == old(self)@,
    {
        let ghost before = self@;
        match remove_session(&mut self.sessions, *id) {
            Some(session) => {
                let mut session = session;
                session.update_heartbeat(now);
                insert_session(&mut self.sessions, *id, session);
                proof {
                    assert(self@.sessions =~= before.sessions.insert(
                        *id,
                        Session { last_heartbeat: now, ..before.sessions[*id] },
                    ));
                }
                true
            },
            None => {
                proof {
                    assert(self@.sessions =~= before.sessions);
                }
                false
            },
        }
    }

    /// Removes a session and its tunnel id.
    pub fn remove(&mut self, id: &u128) -> (r: Option<Session>)
        ensures
            final(self)@ == removed(old(self)@, *id),
            r is Some <==> old(self)@.sessions.contains_key(*id),
            r matches Some(s) ==> s == old(self)@.sessions[*id],
    {
        let ghost before = self@;
        match remove_session(&mut self.sessions, *id) {
            Some(session) => {
                let _ = remove_tunnel(&mut self.tunnel_index, session.tunnel_id.as_str());
                Some(session)
            },
            None => {
                proof {
                    assert(self@.sessions =~= before.sessions);
                }
                None
            },
        }
    }

    /// Counts active sessions.
    pub fn count(&self) -> (r: usize)
        ensures
            self@.sessions.dom().finite(),
            r == self@.sessions.dom().len(),
    {
        count_sessions(&self.sessions)
    }

    /// The ids of the sessions that are stale, each once.
    pub(crate) fn collect_stale(&self, now: u128, timeout: u128) -> (r: Vec<u128>)
        ensures
            r@.no_duplicates(),
            r@.to_set() == stale_ids(self@, now, timeout),
    {
        let ids = session_ids(&self.sessions);
        let mut found: Vec<u128> = Vec::new();
        let mut i: usize = 0;
        while i < ids.len()
            invariant
                i <= ids@.len(),
                ids@.no_duplicates(),
                forall|id: u128| #[trigger]
                    ids@.contains(id) <==> self@.sessions.contains_key(id),
                found@.no_duplicates(),
                forall|id: u128| #[trigger]
                    found@.contains(id) <==> ids@.take(i as int).contains(id)
                        && self@.sessions[id].stale(now, timeout),
            decreases ids@.len() - i,
        {
            let id: u128 = ids[i];
            let ghost sofar = found@;
            proof {
                assert(ids@.contains(id));
                assert(!ids@.take(i as int).contains(id)) by {
                    if ids@.take(i as int).contains(id) {
                        let j = choose|j: int| 0 <= j < i && ids@.take(i as int)[j] == id;
                        assert(ids@[j] == ids@[i as int]);
                    }
                }
                assert forall|x: u128| #[trigger]
                    ids@.take(i + 1).contains(x) <==> ids@.take(i as int).contains(x) || x == id by {
                    assert(ids@.take(i + 1) =~= ids@.take(i as int).push(id));
                    lemma_push_contains(ids@.take(i as int), id, x);
                }
            }
            if let Some(entry) = get_session(&self.sessions, id) {
                if entry_session(&entry).is_stale(now, timeout) {
                    found.push(id);
                    proof {
                        assert forall|x: u128| #[trigger]
                            found@.contains(x) <==> sofar.contains(x) || x == id by {
                            lemma_push_contains(sofar, id, x);
                        }
                        assert(!sofar.contains(id));
                    }
                }
            }
            i += 1;
        }
        proof {
            assert(ids@.take(i as int) =~= ids@);
            assert(found@.to_set() =~= stale_ids(self@, now, timeout));
        }
        found
    }

    /// Removes the sessions that have not sent a heartbeat within `timeout` of the moment
    /// `now`, and returns their number.
    pub fn cleanup_stale_sessions(&mut self, now: u128, timeout: u128) -> (r: usize)
        ensures
            final(self)@ == without(old(self)@, stale_ids(old(self)@, now, timeout)),
            stale_ids(old(self)@, now, timeout).finite(),
            r == stale_ids(old(self)@, now, timeout).len(),
    {
        let ghost before = self@;
        let stale = self.collect_stale(now, timeout);
        let ghost ids = stale@;
        let count: usize = stale.len();
        proof {
            stale@.unique_seq_to_set();
            assert(ids.take(0).to_set() =~= Set::empty());
            assert(without(before, ids.take(0).to_set()).sessions =~= before.sessions);
            assert(tunnels_of(before, ids.take(0).to_set()) =~= Set::empty());
            assert(without(before, ids.take(0).to_set()).index =~= before.index);
        }
        let mut i: usize = 0;
        while i < stale.len()
            invariant
                i <= stale@.len(),
                ids == stale@,
                ids.no_duplicates(),
                ids.to_set() == stale_ids(before, now, timeout),
                self@ == without(before, ids.take(i as int).to_set()),
            decreases stale@.len() - i,
        {
            let id: u128 = stale[i];
            proof {
                assert(ids.contains(id));
                assert(ids.to_set().contains(id));
                lemma_without_step(before, ids, i as int);
            }
            let _ = self.remove(&id);
            i += 1;
        }
        proof {
            assert(ids.take(i as int) =~= ids);
        }
        count
    }

    /// Finds the multiplexer of some session.
    pub fn find_multiplexer(&self) -> (r: Option<u64>)
        ensures
            r is Some <==> some_multiplexer(self@),
            r matches Some(m) ==> exists|id: u128| #[trigger]
                self@.sessions.contains_key(id) && self@.sessions[id].multiplexer == Some(m),
    {
        let ids = session_ids(&self.sessions);
        let mut i: usize = 0;
        while i < ids.len()
            invariant
                i <= ids@.len(),
                forall|id: u128| #[trigger]
                    ids@.contains(id) <==> self@.sessions.contains_key(id),
                forall|j: int|
                    0 <= j < i ==> self@.sessions[#[trigger] ids@[j]].multiplexer is None,
            decreases ids@.len() - i,
        {
            proof {
                assert(ids@.contains(ids@[i as int]));
            }
            if let Some(entry) = get_session(&self.sessions, ids[i]) {
                let session = entry_session(&entry);
                if session.multiplexer.is_some() {
                    return session.multiplexer;
                }
            }
            i += 1;
        }
        proof {
            if some_multiplexer(self@) {
                let id = choose|id: u128| #[trigger]
                    self@.sessions.contains_key(id) && self@.sessions[id].multiplexer is Some;
                assert(ids@.contains(id));
                let j = choose|j: int| 0 <= j < ids@.len() && ids@[j] == id;
                assert(self@.sessions[ids@[j]].multiplexer is None);
            }
        }
        None
    }

    /// Finds the multiplexer of some session that offers a capability.
    pub fn find_multiplexer_with_capability(&self, capability: &str) -> (r: Option<u64>)
        ensures
            r is Some <==> capable_multiplexer(self@, capability@),
            r matches Some(m) ==> exists|id: u128| #[trigger]
                self@.sessions.contains_key(id) && self@.sessions[id].multiplexer == Some(m)
                    && self@.sessions[id].offers(capability@),
    {
        let ids = session_ids(&self.sessions);
        let mut i: usize = 0;
        while i < ids.len()
            invariant
                i <= ids@.len(),
                forall|id: u128| #[trigger]
                    ids@.contains(id) <==> self@.sessions.contains_key(id),
                forall|j: int|
                    0 <= j < i ==> self@.sessions[#[trigger] ids@[j]].multiplexer is None
                        || !self@.sessions[ids@[j]].offers(capability@),
            decreases ids@.len() - i,
        {
            proof {
                assert(ids@.contains(ids@[i as int]));
            }
            if let Some(entry) = get_session(&self.sessions, ids[i]) {
                let session = entry_session(&entry);
                if session.has_capability(capability) && session.multiplexer.is_some() {
                    return session.multiplexer;
                }
            }
            i += 1;
        }
        proof {
            if capable_multiplexer(self@, capability@) {
                let id = choose|id: u128| #[trigger]
                    self@.sessions.contains_key(id) && self@.sessions[id].multiplexer is Some
                        && self@.sessions[id].offers(capability@);
                assert(ids@.contains(id));
                let j = choose|j: int| 0 <= j < ids@.len() && ids@[j] == id;
                assert(self@.sessions[ids@[j]].multiplexer is None
                    || !self@.sessions[ids@[j]].offers(capability@));
            }
        }
        None
    }
}

/// What a list contains with one more id at its end.
pub proof fn lemma_push_contains(s: Seq<u128>, last: u128, x: u128)
    ensures
        s.push(last).contains(x) <==> s.contains(x) || x == last,
{
    if s.push(last).contains(x) {
        let i = choose|i: int| 0 <= i < s.push(last).len() && s.push(last)[i] == x;
        if i < s.len() {
            assert(s[i] == x);
        }
    }
    if s.contains(x) {
        let i = choose|i: int| 0 <= i < s.len() && s[i] == x;
        assert(s.push(last)[i] == x);
    }
    assert(s.push(last)[s.len() as int] == last);
}

/// Taking out one more of a list of ids.
pub proof fn lemma_without_step(store: StoreView, ids: Seq<u128>, i: int)
    requires
        0 <= i < ids.len(),
        ids.no_duplicates(),
        store.sessions.contains_key(ids[i]),
    ensures
        removed(without(store, ids.take(i).to_set()), ids[i]) == without(
            store,
            ids.take(i + 1).to_set(),
        ),
{
    let a = ids.take(i).to_set();
    let b = ids.take(i + 1).to_set();
    let id = ids[i];
    assert(ids.take(i + 1) =~= ids.take(i).push(id));
    assert forall|x: u128| b.contains(x) <==> a.contains(x) || x == id by {
        lemma_push_contains(ids.take(i), id, x);
    }
    assert(!a.contains(id)) by {
        if ids.take(i).contains(id) {
            let j = choose|j: int| 0 <= j < i && ids.take(i)[j] == id;
            assert(ids[j] == ids[i]);
        }
    }
    let t = store.sessions[id].tunnel_id@;
    assert forall|x: Seq<char>| #[trigger]
        tunnels_of(store, b).contains(x) <==> tunnels_of(store, a).contains(x) || x == t by {
        if tunnels_of(store, b).contains(x) {
            let k = choose|k: u128|
                b.contains(k) && store.sessions.contains_key(k)
                    && #[trigger] store.sessions[k].tunnel_id@ == x;
            if k != id {
                assert(a.contains(k));
            }
        }
        if tunnels_of(store, a).contains(x) {
            let k = choose|k: u128|
                a.contains(k) && store.sessions.contains_key(k)
                    && #[trigger] store.sessions[k].tunnel_id@ == x;
            assert(b.contains(k));
        }
        if x == t {
            assert(b.contains(id));
        }
    }
    let left = removed(without(store, a), id);
    let right = without(store, b);
    assert(left.sessions =~= right.sessions);
    assert(left.index =~= right.index);
}

/// Adding a session keeps sessions and index in agreement, and leads its tunnel id to it.
///
/// A session id that is in the store already must come with the tunnel id it has there.
pub proof fn law_add_keeps_agreement(store: StoreView, session: Session)
    requires
        consistent(store),
        !conflict(store, session),
        store.sessions.contains_key(session.id) ==> store.sessions[session.id].tunnel_id@
            == session.tunnel_id@,
    ensures
        consistent(added(store, session)),
        lookup(added(store, session), session.tunnel_id@) == Some(session),
{
}

/// Replacing keeps sessions and index in agreement, leads the tunnel id to the new session,
/// and leaves no other session with that tunnel id.
pub proof fn law_replace_leaves_one_session(store: StoreView, session: Session)
    requires
        consistent(store),
        store.sessions.contains_key(session.id) ==> store.sessions[session.id].tunnel_id@
            == session.tunnel_id@,
    ensures
        consistent(replaced(store, session)),
        lookup(replaced(store, session), session.tunnel_id@) == Some(session),
        forall|id: u128| #[trigger]
            replaced(store, session).sessions.contains_key(id) && replaced(
                store,
                session,
            ).sessions[id].tunnel_id@ == session.tunnel_id@ ==> id == session.id,
{
}

/// Removing keeps sessions and index in agreement, and frees the tunnel id.
pub proof fn law_remove_frees_the_tunnel_id(store: StoreView, id: u128)
    requires
        consistent(store),
        store.sessions.contains_key(id),
    ensures
        consistent(removed(store, id)),
        !removed(store, id).sessions.contains_key(id),
        lookup(removed(store, id), store.sessions[id].tunnel_id@) is None,
{
}

/// Removing a session that was just added gives the store back as it was.
pub proof fn law_remove_undoes_add(store: StoreView, session: Session)
    requires
        !store.sessions.contains_key(session.id),
        !store.index.contains_key(session.tunnel_id@),
    ensures
        removed(added(store, session), session.id) == store,
{
    let after = removed(added(store, session), session.id);
    assert(after.sessions =~= store.sessions);
    assert(after.index =~= store.index);
}

/// No two sessions of a store have the same tunnel id.
pub proof fn law_tunnel_ids_are_unique(store: StoreView, a: u128, b: u128)
    requires
        consistent(store),
        store.sessions.contains_key(a),
        store.sessions.contains_key(b),
        store.sessions[a].tunnel_id@ == store.sessions[b].tunnel_id@,
    ensures
        a == b,
{
}

/// Of two sessions that claim a tunnel id, one after the other, the second is refused and the
/// first stays.
pub proof fn law_second_claim_is_refused(store: StoreView, first: Session, second: Session)
    requires
        !conflict(store, first),
        first.tunnel_id@ == second.tunnel_id@,
        first.id != second.id,
    ensures
        conflict(added(store, first), second),
        lookup(added(store, first), second.tunnel_id@) == Some(first),
{
}

/// A session whose client was heard of within the timeout survives the cleanup, unchanged.
pub proof fn law_heard_session_survives_cleanup(
    store: StoreView,
    id: u128,
    now: u128,
    timeout: u128,
)
    requires
        store.sessions.contains_key(id),
        now - store.sessions[id].last_heartbeat <= timeout,
    ensures
        without(store, stale_ids(store, now, timeout)).sessions.contains_key(id),
        without(store, stale_ids(store, now, timeout)).sessions[id] == store.sessions[id],
{
}

/// Adding a session under an id that is not in the store raises the count by one; under one
/// that is, it keeps the count.
pub proof fn law_adding_raises_the_count(store: StoreView, session: Session)
    requires
        store.sessions.dom().finite(),
    ensures
        added(store, session).sessions.dom().finite(),
        added(store, session).sessions.dom().len() == store.sessions.dom().len() + (
        if store.sessions.contains_key(session.id) {
            0nat
        } else {
            1
        }),
{
    let before = store.sessions.dom();
    assert(added(store, session).sessions.dom() =~= before.insert(session.id));
}

/// Removing a session lowers the count by one.
pub proof fn law_removing_lowers_the_count(store: StoreView, id: u128)
    requires
        store.sessions.dom().finite(),
        store.sessions.contains_key(id),
    ensures
        removed(store, id).sessions.dom().finite(),
        removed(store, id).sessions.dom().len() + 1 == store.sessions.dom().len(),
{
    assert(removed(store, id).sessions.dom() =~= store.sessions.dom().remove(id));
}

/// Cleaning up lowers the count by the number of stale sessions.
pub proof fn law_cleanup_lowers_the_count(store: StoreView, now: u128, timeout: u128)
    requires
        store.sessions.dom().finite(),
    ensures
        ({
            let stale = stale_ids(store, now, timeout);
            let after = without(store, stale);
            &&& after.sessions.dom().finite()
            &&& after.sessions.dom().len() + stale.len() == store.sessions.dom().len()
        }),
{
    let all = store.sessions.dom();
    let stale = stale_ids(store, now, timeout);
    let left = without(store, stale).sessions.dom();
    assert(left =~= all.difference(stale));
    assert(left.disjoint(stale));
    assert(left + stale =~= all);
    vstd::set_lib::lemma_set_disjoint_lens(left, stale);
}

/// Cleaning up keeps sessions and index in agreement, and no stale session is left.
pub proof fn law_cleanup_leaves_only_fresh_sessions(store: StoreView, now: u128, timeout: u128)
    requires
        consistent(store),
    ensures
        consistent(without(store, stale_ids(store, now, timeout))),
        forall|id: u128| #[trigger]
            without(store, stale_ids(store, now, timeout)).sessions.contains_key(id)
                <==> store.sessions.contains_key(id) && !store.sessions[id].stale(now, timeout),
{
    let ids = stale_ids(store, now, timeout);
    let after = without(store, ids);
    assert forall|id: u128| #[trigger] after.sessions.contains_key(id) implies after.sessions[id].id
        == id && after.index.contains_key(after.sessions[id].tunnel_id@)
        && after.index[after.sessions[id].tunnel_id@] == id by {
        assert(store.sessions.contains_key(id) && !ids.contains(id));
        let t = store.sessions[id].tunnel_id@;
        if tunnels_of(store, ids).contains(t) {
            let k = choose|k: u128|
                ids.contains(k) && store.sessions.contains_key(k)
                    && #[trigger] store.sessions[k].tunnel_id@ == t;
            law_tunnel_ids_are_unique(store, id, k);
        }
    }
    assert forall|t: Seq<char>| #[trigger] after.index.contains_key(t) implies after.sessions.contains_key(
        after.index[t],
    ) && after.sessions[after.index[t]].tunnel_id@ == t by {
        assert(store.index.contains_key(t) && !tunnels_of(store, ids).contains(t));
        let id = store.index[t];
        if ids.contains(id) {
            assert(store.sessions.contains_key(id) && store.sessions[id].tunnel_id@ == t);
        }
    }
}

/// A session is added unless another session has its tunnel id. One that is added is found by its
/// id and by its tunnel id, and every other entry stays; one that is not changes nothing, and the
/// refusal names the tunnel id.
pub proof fn law_added_session_is_found(
    store: &mut SessionStore,
    session: Session,
    r: Result<(), SessionStoreError>,
)
    requires
        call_ensures(SessionStore::add, (store, session), r),
    ensures
        r is Err <==> old(store)@.index.contains_key(session.tunnel_id@) && old(store)@.index[session.tunnel_id@] != session.id,
        r is Ok ==> final(store)@.sessions == old(store)@.sessions.insert(session.id, session)
            && final(store)@.index == old(store)@.index.insert(session.tunnel_id@, session.id),
        r matches Err(e) ==> final(store)@ == old(store)@ && e->TunnelIdAlreadyExists_0@
            == session.tunnel_id@,
{
}

/// A session that replaces is always taken in: under its tunnel id there is then no other, and
/// every session with another tunnel id stays.
pub proof fn law_replacement_is_always_taken_in(store: &mut SessionStore, session: Session, id: u128)
    requires
        call_ensures(SessionStore::add_or_replace, (store, session), ()),
    ensures
        final(store)@.sessions.contains_key(session.id),
        final(store)@.sessions[session.id] == session,
        final(store)@.index == old(store)@.index.insert(session.tunnel_id@, session.id),
        id != session.id && old(store)@.index.contains_key(session.tunnel_id@) && old(store)@.index[session.tunnel_id@] == id ==> !final(store)@.sessions.contains_key(id),
        id != session.id && !(old(store)@.index.contains_key(session.tunnel_id@) && old(store)@.index[session.tunnel_id@] == id) ==> (final(store)@.sessions.contains_key(id)
            <==> old(store)@.sessions.contains_key(id)) && final(store)@.sessions[id]
            == old(store)@.sessions[id],
{
}

/// A session is found by its id exactly where it is there, and by a tunnel id exactly where that
/// leads to one that is.
pub proof fn law_lookups_find_what_is_there(
    store: &SessionStore,
    id: &u128,
    by_id: Option<dashmap::mapref::one::Ref<'_, u128, Session>>,
    tunnel_id: &str,
    by_tunnel: Option<dashmap::mapref::one::Ref<'_, u128, Session>>,
)
    requires
        call_ensures(SessionStore::get, (store, id), by_id),
        call_ensures(SessionStore::get_by_tunnel_id, (store, tunnel_id), by_tunnel),
    ensures
        by_id is Some <==> store@.sessions.contains_key(*id),
        by_id is Some ==> session_at(by_id->0) == store@.sessions[*id],
        by_tunnel is Some <==> store@.index.contains_key(tunnel_id@)
            && store@.sessions.contains_key(store@.index[tunnel_id@]),
        by_tunnel is Some ==> session_at(by_tunnel->0) == store@.sessions[store@.index[tunnel_id@]],
{
}

/// A session that is removed is handed back, and is gone with its tunnel id; all else stays. An id
/// that is not there changes nothing.
pub proof fn law_removed_session_is_gone(store: &mut SessionStore, id: &u128, r: Option<Session>)
    requires
        call_ensures(SessionStore::remove, (store, id), r),
    ensures
        r is Some <==> old(store)@.sessions.contains_key(*id),
        r matches Some(s) ==> s == old(store)@.sessions[*id] && final(store)@.sessions
            == old(store)@.sessions.remove(*id) && final(store)@.index == old(store)@.index.remove(
            s.tunnel_id@,
        ),
        r is None ==> final(store)@ == old(store)@,
{
}

/// A sign of life moves the time of a session's last heartbeat, and nothing else of it or of any
/// other session.
pub proof fn law_heartbeat_moves_only_its_time(
    store: &mut SessionStore,
    id: &u128,
    now: u128,
    other: u128,
    r: bool,
)
    requires
        call_ensures(SessionStore::update_heartbeat, (store, id, now), r),
    ensures
        r <==> old(store)@.sessions.contains_key(*id),
        final(store)@.index == old(store)@.index,
        final(store)@.sessions.contains_key(other) <==> old(store)@.sessions.contains_key(other),
        other != *id ==> final(store)@.sessions[other] == old(store)@.sessions[other],
        r ==> ({
            let before = old(store)@.sessions[*id];
            let after = final(store)@.sessions[*id];
            &&& after.last_heartbeat == now
            &&& after.id == before.id
            &&& after.tunnel_id == before.tunnel_id
            &&& after.connected_at == before.connected_at
            &&& after.token == before.token
            &&& after.capabilities == before.capabilities
            &&& after.multiplexer == before.multiplexer
            &&& after.rate_limiter == before.rate_limiter
        }),
{
}

/// The cleanup takes out exactly the sessions of which nothing was heard for longer than the
/// timeout, and tells how many; the others stay as they are, and with them their tunnel ids.
pub proof fn law_cleanup_takes_out_the_silent(
    store: &mut SessionStore,
    now: u128,
    timeout: u128,
    id: u128,
    r: usize,
)
    requires
        call_ensures(SessionStore::cleanup_stale_sessions, (store, now, timeout), r),
    ensures
        final(store)@.sessions.contains_key(id) <==> old(store)@.sessions.contains_key(id) && now
            - old(store)@.sessions[id].last_heartbeat <= timeout,
        final(store)@.sessions.contains_key(id) ==> final(store)@.sessions[id]
            == old(store)@.sessions[id],
        old(store)@.sessions.dom().finite() ==> final(store)@.sessions.dom().len() + r
            == old(store)@.sessions.dom().len(),
        final(store)@.sessions.contains_key(id) && (forall|a: u128, b: u128|
            #![trigger old(store)@.sessions[a], old(store)@.sessions[b]]
            old(store)@.sessions.contains_key(a) && old(store)@.sessions.contains_key(b) && a != b
                ==> old(store)@.sessions[a].tunnel_id@ != old(store)@.sessions[b].tunnel_id@)
            && old(store)@.index.contains_key(old(store)@.sessions[id].tunnel_id@)
            ==> final(store)@.index.contains_key(old(store)@.sessions[id].tunnel_id@)
            && final(store)@.index[old(store)@.sessions[id].tunnel_id@]
            == old(store)@.index[old(store)@.sessions[id].tunnel_id@],
{
    let before = old(store)@;
    if before.sessions.dom().finite() {
        law_cleanup_lowers_the_count(before, now, timeout);
    }
    if final(store)@.sessions.contains_key(id) && (forall|a: u128, b: u128|
        #![trigger old(store)@.sessions[a], old(store)@.sessions[b]]
        old(store)@.sessions.contains_key(a) && old(store)@.sessions.contains_key(b) && a != b
            ==> old(store)@.sessions[a].tunnel_id@ != old(store)@.sessions[b].tunnel_id@) {
        let t = before.sessions[id].tunnel_id@;
        let stale = stale_ids(before, now, timeout);
        if tunnels_of(before, stale).contains(t) {
            let k = choose|k: u128|
                stale.contains(k) && before.sessions.contains_key(k)
                    && #[trigger] before.sessions[k].tunnel_id@ == t;
            assert(k != id);
        }
    }
}

/// Some multiplexer is found exactly where a session has one, and one for a capability exactly
/// where a session that offers it has one; what is found is that of such a session.
pub proof fn law_multiplexer_is_found_where_there_is_one(
    store: &SessionStore,
    capability: &str,
    any: Option<u64>,
    capable: Option<u64>,
    id: u128,
    i: int,
)
    requires
        call_ensures(SessionStore::find_multiplexer, (store,), any),
        call_ensures(SessionStore::find_multiplexer_with_capability, (store, capability), capable),
    ensures
        store@.sessions.contains_key(id) && store@.sessions[id].multiplexer is Some ==> any is Some,
        store@.sessions.contains_key(id) && store@.sessions[id].multiplexer is Some && 0 <= i
            < store@.sessions[id].capabilities@.len() && store@.sessions[id].capabilities@[i]@
            == capability@ ==> capable is Some,
        any matches Some(m) ==> exists|s: u128| #[trigger]
            store@.sessions.contains_key(s) && store@.sessions[s].multiplexer == Some(m),
        capable matches Some(m) ==> exists|s: u128, j: int|
            store@.sessions.contains_key(s) && store@.sessions[s].multiplexer == Some(m) && 0 <= j
                < store@.sessions[s].capabilities@.len()
                && #[trigger] store@.sessions[s].capabilities@[j]@ == capability@,
{
    if store@.sessions.contains_key(id) && store@.sessions[id].multiplexer is Some {
        assert(some_multiplexer(store@));
        if 0 <= i < store@.sessions[id].capabilities@.len()
            && store@.sessions[id].capabilities@[i]@ == capability@ {
            assert(store@.sessions[id].offers(capability@));
            assert(capable_multiplexer(store@, capability@));
        }
    }
    if let Some(m) = capable {
        let s = choose|s: u128| #[trigger]
            store@.sessions.contains_key(s) && store@.sessions[s].multiplexer == Some(m)
                && store@.sessions[s].offers(capability@);
        let j = choose|j: int|
            0 <= j < store@.sessions[s].capabilities@.len()
                && #[trigger] store@.sessions[s].capabilities@[j]@ == capability@;
        assert(store@.sessions[s].capabilities@[j]@ == capability@);
    }
}

/// A session offers exactly the capabilities that are listed for it, and is stale exactly where
/// nothing was heard of it for longer than the timeout.
pub proof fn law_session_tells_what_it_offers(
    session: &Session,
    capability: &str,
    i: int,
    now: u128,
    timeout: u128,
    offers: bool,
    stale: bool,
)
    requires
        call_ensures(Session::has_capability, (session, capability), offers),
        call_ensures(Session::is_stale, (session, now, timeout), stale),
    ensures
        0 <= i < session.capabilities@.len() && session.capabilities@[i]@ == capability@ ==> offers,
        offers ==> exists|j: int|
            0 <= j < session.capabilities@.len() && #[trigger] session.capabilities@[j]@
                == capability@,
        stale <==> now as int > session.last_heartbeat as int + timeout as int,
{
}

/// A new store holds nothing, and the count of a store is the number of its sessions.
pub proof fn law_new_store_is_empty(new: SessionStore, store: &SessionStore, count: usize)
    requires
        call_ensures(SessionStore::new, (), new),
        call_ensures(SessionStore::count, (store,), count),
    ensures
        new@.sessions == Map::<u128, Session>::empty(),
        new@.index == Map::<Seq<char>, u128>::empty(),
        count == store@.sessions.dom().len(),
        store@.sessions.dom().finite(),
{
}

/// A new session was heard of at the moment it was made, and may open 100 streams and send 10 MiB
/// each second, and twice as much at once.
pub proof fn law_new_session_is_alive(
    id: u128,
    tunnel_id: String,
    addr: SocketAddr,
    token: String,
    capabilities: Vec<String>,
    multiplexer: Option<u64>,
    now: u128,
    r: Session,
)
    requires
        call_ensures(
            Session::new,
            (id, tunnel_id, addr, token, capabilities, multiplexer, now),
            r,
        ),
    ensures
        r.id == id,
        r.tunnel_id@ == tunnel_id@,
        r.multiplexer == multiplexer,
        r.capabilities@ == capabilities@,
        r.connected_at == now,
        r.last_heartbeat == now,
        r.rate_limiter is Some,
        r.rate_limiter->0.stream_rate() == 100,
        r.rate_limiter->0.stream_burst() == 200,
        r.rate_limiter->0.bytes_rate() == 10 * 1024 * 1024,
        r.rate_limiter->0.bytes_burst() == 20 * 1024 * 1024,
{
}

/// A tunnel id that is taken is named in the error, and reported as an invalid state.
pub proof fn law_taken_tunnel_id_is_named(
    id: String,
    error: &SessionStoreError,
    r: String,
    reported: TunnelError,
)
    requires
        *error == SessionStoreError::TunnelIdAlreadyExists(id),
        call_ensures(SessionStoreError::message, (error,), r),
        call_ensures(SessionStoreError::into_tunnel_error, (*error,), reported),
    ensures
        r@ == "tunnel ID '"@ + id@ + "' is already registered by another session"@,
        reported is InvalidState && reported->InvalidState_0@ == r@,
{
}

} // verus!
