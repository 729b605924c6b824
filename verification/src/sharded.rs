//! A session store in shards, and the choice between the two kinds of store.

use vstd::prelude::*;

use crate::rate_limit::SessionRateLimiter;
use crate::session::{DEFAULT_SESSION_STORE_SHARDS, Session, SessionStore, SessionStoreError,
    StoreView, added, capable_multiplexer, conflict, consistent, empty_store, entry_session,
    law_add_keeps_agreement, law_adding_raises_the_count, law_cleanup_lowers_the_count, law_remove_frees_the_tunnel_id, law_replace_leaves_one_session, lookup,
    removed, replaced, session_at, some_multiplexer, stale_ids, without};

verus! {

/// The hash of a text under a hasher made by `DefaultHasher::new`.
pub uninterp spec fn text_hash(text: Seq<char>) -> u64;

/// Hashes a text.
///
/// Calls `std::hash::Hash::hash` and `std::hash::Hasher::finish` on a hasher from
/// `std::collections::hash_map::DefaultHasher::new`; all hashers made so give the same hash
/// for the same text, [`text_hash`].
#[verifier::external_body]
fn hash_text(text: &str) -> (r: u64)
    ensures
        r == text_hash(text@),
{
    let mut hasher = std::collections::hash_map::DefaultHasher::new();
    std::hash::Hash::hash(text, &mut hasher);
    std::hash::Hasher::finish(&hasher)
}

/// The shard of a tunnel id among `n_shards`.
pub open spec fn shard_of(tunnel_id: Seq<char>, n_shards: nat) -> int {
    (text_hash(tunnel_id) as usize) as int % n_shards as int
}

/// Picks the shard of a tunnel id among `n_shards`, of which there is at least one.
pub fn shard_index(tunnel_id: &str, n_shards: usize) -> (r: usize)
    requires
        n_shards > 0,
    ensures
        r == shard_of(tunnel_id@, n_shards as nat),
        r < n_shards,
{
    let hash: u64 = hash_text(tunnel_id);
    #[verifier::truncate]
    let narrow: usize = hash as usize;
    narrow % n_shards
}

/// The first shard, from `from` on, that holds a session id.
pub open spec fn holder(shards: Seq<StoreView>, id: u128, from: int) -> Option<int>
    decreases shards.len() - from,
{
    if from < 0 || from >= shards.len() {
        None
    } else if shards[from].sessions.contains_key(id) {
        Some(from)
    } else {
        holder(shards, id, from + 1)
    }
}

/// A holder is a shard that holds the id, and without one no shard does.
pub proof fn lemma_holder(shards: Seq<StoreView>, id: u128, from: int)
    requires
        0 <= from,
    ensures
        holder(shards, id, from) matches Some(k) ==> from <= k < shards.len()
            && shards[k].sessions.contains_key(id),
        holder(shards, id, from) is None ==> forall|k: int|
            from <= k < shards.len() ==> !(#[trigger] shards[k]).sessions.contains_key(id),
    decreases shards.len() - from,
{
    if from < shards.len() {
        lemma_holder(shards, id, from + 1);
    }
}

/// The number of sessions in the first `n` shards.
pub open spec fn sessions_in(shards: Seq<StoreView>, n: nat) -> nat
    decreases n,
{
    if n == 0 || n > shards.len() {
        0
    } else {
        sessions_in(shards, (n - 1) as nat) + shards[n - 1].sessions.dom().len()
    }
}

/// The number of stale sessions in the first `n` shards.
pub open spec fn stale_in(shards: Seq<StoreView>, now: u128, timeout: u128, n: nat) -> nat
    decreases n,
{
    if n == 0 || n > shards.len() {
        0
    } else {
        stale_in(shards, now, timeout, (n - 1) as nat) + stale_ids(
            shards[n - 1],
            now,
            timeout,
        ).len()
    }
}

/// Whether every shard holds finitely many sessions.
pub open spec fn finite_shards(shards: Seq<StoreView>) -> bool {
    forall|k: int| 0 <= k < shards.len() ==> (#[trigger] shards[k]).sessions.dom().finite()
}

/// The shards without the session `id` in the first of them that holds it.
pub open spec fn removed_from_first(shards: Seq<StoreView>, id: u128) -> Seq<StoreView> {
    match holder(shards, id, 0) {
        Some(k) => shards.update(k, removed(shards[k], id)),
        None => shards,
    }
}

/// The shards after the sessions with the given ids were removed, one after the other.
pub open spec fn removed_in_turn(shards: Seq<StoreView>, ids: Seq<u128>) -> Seq<StoreView>
    decreases ids.len(),
{
    if ids.len() == 0 {
        shards
    } else {
        removed_from_first(removed_in_turn(shards, ids.drop_last()), ids.last())
    }
}

/// Whether a list gives the stale ids of the first `n` shards, shard by shard, those of a shard
/// each once and in any order.
pub open spec fn lists_stale(
    shards: Seq<StoreView>,
    now: u128,
    timeout: u128,
    n: nat,
    ids: Seq<u128>,
) -> bool
    decreases n,
{
    if n == 0 || n > shards.len() {
        ids.len() == 0
    } else {
        exists|earlier: Seq<u128>, here: Seq<u128>|
            ids == #[trigger] (earlier + here) && lists_stale(
                shards,
                now,
                timeout,
                (n - 1) as nat,
                earlier,
            ) && here.no_duplicates() && here.to_set() == stale_ids(shards[n - 1], now, timeout)
    }
}

/// What each of a list of stores holds.
pub open spec fn store_views(stores: Seq<SessionStore>) -> Seq<StoreView> {
    Seq::new(stores.len(), |i: int| stores[i]@)
}

/// Sharded session store, for many lookups by tunnel id. A session is kept in the shard of
/// its tunnel id.
pub struct ShardedSessionStore {
    shards: Vec<SessionStore>,
}

impl View for ShardedSessionStore {
    type V = Seq<StoreView>;

    closed spec fn view(&self) -> Seq<StoreView> {
        store_views(self.shards@)
    }
}

impl Default for ShardedSessionStore {
    fn default() -> (r: ShardedSessionStore)
        ensures
            r@ == Seq::new(16, |i: int| empty_store()),
    {
        ShardedSessionStore::new()
    }
}

/// Whether some shard holds a session with this id that has not sent a heartbeat within
/// `timeout` of the moment `now`.
pub open spec fn stale_somewhere(
    shards: Seq<StoreView>,
    now: u128,
    timeout: u128,
    id: u128,
) -> bool {
    exists|k: int| 0 <= k < shards.len() && #[trigger] stale_ids(shards[k], now, timeout).contains(id)
}

/// Whether every session whose id is stale in no shard is where it was.
pub open spec fn keeps_fresh(
    before: Seq<StoreView>,
    after: Seq<StoreView>,
    now: u128,
    timeout: u128,
) -> bool {
    &&& after.len() == before.len()
    &&& forall|k: int, id: u128|
        0 <= k < before.len() && !stale_somewhere(before, now, timeout, id) ==> {
            &&& (#[trigger] after[k].sessions.contains_key(id))
                == before[k].sessions.contains_key(id)
            &&& after[k].sessions.contains_key(id) ==> after[k].sessions[id]
                == before[k].sessions[id]
        }
}

impl ShardedSessionStore {
    /// Creates a sharded store with the default number of shards.
    pub fn new() -> (r: ShardedSessionStore)
        ensures
            r@ == Seq::new(16, |i: int| empty_store()),
    {
        ShardedSessionStore::with_shards(DEFAULT_SESSION_STORE_SHARDS)
    }

    /// Creates a sharded store with the given number of shards.
    pub fn with_shards(n_shards: usize) -> (r: ShardedSessionStore)
        ensures
            r@ == Seq::new(n_shards as nat, |i: int| empty_store()),
    {
        let mut shards: Vec<SessionStore> = Vec::new();
        let mut i: usize = 0;
        while i < n_shards
            invariant
                i <= n_shards,
                shards@.len() == i,
                forall|j: int| 0 <= j < i ==> (#[trigger] shards@[j])@ == empty_store(),
            decreases n_shards - i,
        {
            shards.push(SessionStore::new());
            i += 1;
        }
        let r = ShardedSessionStore { shards };
        proof {
            assert(r@ =~= Seq::new(n_shards as nat, |i: int| empty_store()));
        }
        r
    }

    /// Adds a new session, unless its tunnel id is registered by a different session.
    pub fn add(&mut self, session: Session) -> (r: Result<(), SessionStoreError>)
        requires
            old(self)@.len() > 0,
        ensures
            ({
                let k = shard_of(session.tunnel_id@, old(self)@.len());
                let shard = old(self)@[k];
                &&& 0 <= k < old(self)@.len()
                &&& r is Err <==> conflict(shard, session)
                &&& r is Ok ==> final(self)@ == old(self)@.update(k, added(shard, session))
                &&& r is Err ==> final(self)@ == old(self)@
                &&& r matches Err(e) ==> e->TunnelIdAlreadyExists_0@ == session.tunnel_id@
            }),
    {
        let ghost before = self@;
        let k: usize = shard_index(session.tunnel_id.as_str(), self.shards.len());
        let ghost s = session;
        let r = self.shards[k].add(session);
        proof {
            if r is Ok {
                assert(self@ =~= before.update(k as int, added(before[k as int], s)));
            } else {
                assert(self@ =~= before);
            }
        }
        r
    }

    /// Adds a session in the place of any other with the same tunnel id.
    pub fn add_or_replace(&mut self, session: Session)
        requires
            old(self)@.len() > 0,
        ensures
            ({
                let k = shard_of(session.tunnel_id@, old(self)@.len());
                &&& 0 <= k < old(self)@.len()
                &&& final(self)@ == old(self)@.update(k, replaced(old(self)@[k], session))
            }),
    {
        let ghost before = self@;
        let k: usize = shard_index(session.tunnel_id.as_str(), self.shards.len());
        let ghost s = session;
        self.shards[k].add_or_replace(session);
        proof {
            assert(self@ =~= before.update(k as int, replaced(before[k as int], s)));
        }
    }

    fn find_holder(&self, id: u128) -> (r: Option<usize>)
        ensures
            match r {
                Some(k) => holder(self@, id, 0) == Some(k as int) && k < self@.len(),
                None => holder(self@, id, 0) is None,
            },
    {
        let mut k: usize = 0;
        while k < self.shards.len()
            invariant
                k <= self.shards@.len(),
                self@ == store_views(self.shards@),
                holder(self@, id, 0) == holder(self@, id, k as int),
            decreases self.shards@.len() - k,
        {
            if self.shards[k].get(&id).is_some() {
                return Some(k);
            }
            k += 1;
        }
        None
    }

    /// Borrows a session by id: the one in the first shard that holds it.
    pub fn get(&self, id: &u128) -> (r: Option<dashmap::mapref::one::Ref<'_, u128, Session>>)
        ensures
            r is Some <==> holder(self@, *id, 0) is Some,
            r matches Some(e) ==> session_at(e) == self@[holder(self@, *id, 0)->0].sessions[*id],
    {
        proof {
            lemma_holder(self@, *id, 0);
        }
        match self.find_holder(*id) {
            Some(k) => self.shards[k].get(id),
            None => None,
        }
    }

    /// Borrows a session by tunnel id, from the shard of that id.
    pub fn get_by_tunnel_id(&self, tunnel_id: &str) -> (r: Option<
        dashmap::mapref::one::Ref<'_, u128, Session>,
    >)
        requires
            self@.len() > 0,
        ensures
            ({
                let shard = self@[shard_of(tunnel_id@, self@.len())];
                &&& r is Some <==> lookup(shard, tunnel_id@) is Some
                &&& r matches Some(e) ==> lookup(shard, tunnel_id@) == Some(session_at(e))
            }),
    {
        let k: usize = shard_index(tunnel_id, self.shards.len());
        self.shards[k].get_by_tunnel_id(tunnel_id)
    }

    /// Records that the client of a session was heard of at the moment `now`; `false` where
    /// there is no such session.
    pub fn update_heartbeat(&mut self, id: &u128, now: u128) -> (r: bool)
        ensures
            r <==> holder(old(self)@, *id, 0) is Some,
            r ==> ({
                let k = holder(old(self)@, *id, 0)->0;
                final(self)@ == old(self)@.update(
                    k,
                    StoreView {
                        sessions: old(self)@[k].sessions.insert(
                            *id,
                            Session { last_heartbeat: now, ..old(self)@[k].sessions[*id] },
                        ),
                        index: old(self)@[k].index,
                    },
                )
            }),
            !r ==> final(self)@ == old(self)@,
    {
        let ghost before = self@;
        proof {
            lemma_holder(self@, *id, 0);
        }
        match self.find_holder(*id) {
            Some(k) => {
                let _ = self.shards[k].update_heartbeat(id, now);
                proof {
                    assert(self@ =~= before.update(
                        k as int,
                        StoreView {
                            sessions: before[k as int].sessions.insert(
                                *id,
                                Session { last_heartbeat: now, ..before[k as int].sessions[*id] },
                            ),
                            index: before[k as int].index,
                        },
                    ));
                }
                true
            },
            None => false,
        }
    }

    /// Removes a session, and its tunnel id, from the first shard that holds it.
    pub fn remove(&mut self, id: &u128) -> (r: Option<Session>)
        ensures
            r is Some <==> holder(old(self)@, *id, 0) is Some,
            r matches Some(s) ==> ({
                let k = holder(old(self)@, *id, 0)->0;
                &&& 0 <= k < old(self)@.len()
                &&& s == old(self)@[k].sessions[*id]
                &&& final(self)@ == old(self)@.update(k, removed(old(self)@[k], *id))
            }),
            r is None ==> final(self)@ == old(self)@,
    {
        let ghost before = self@;
        proof {
            lemma_holder(self@, *id, 0);
        }
        match self.find_holder(*id) {
            Some(k) => {
                let r = self.shards[k].remove(id);
                proof {
                    assert(self@ =~= before.update(k as int, removed(before[k as int], *id)));
                }
                r
            },
            None => None,
        }
    }

    /// Counts active sessions over all shards.
    pub fn count(&self) -> (r: usize)
        requires
            sessions_in(self@, self@.len()) <= usize::MAX,
        ensures
            finite_shards(self@),
            r == sessions_in(self@, self@.len()),
    {
        let mut total: usize = 0;
        let mut k: usize = 0;
        while k < self.shards.len()
            invariant
                k <= self.shards@.len(),
                self@ == store_views(self.shards@),
                forall|j: int| 0 <= j < k ==> (#[trigger] self@[j]).sessions.dom().finite(),
                total == sessions_in(self@, k as nat),
                sessions_in(self@, self@.len()) <= usize::MAX,
            decreases self.shards@.len() - k,
        {
            proof {
                lemma_sessions_in_grows(self@, (k + 1) as nat, self@.len());
            }
            total += self.shards[k].count();
            k += 1;
        }
        total
    }

    fn collect_all_stale(&self, now: u128, timeout: u128) -> (r: Vec<u128>)
        ensures
            lists_stale(self@, now, timeout, self@.len(), r@),
            r@.len() == stale_in(self@, now, timeout, self@.len()),
            forall|id: u128| #[trigger]
                r@.contains(id) <==> exists|k: int|
                    0 <= k < self@.len() && #[trigger] stale_ids(self@[k], now, timeout).contains(
                        id,
                    ),
            unshared(self@) ==> r@.no_duplicates(),
    {
        let mut all: Vec<u128> = Vec::new();
        let mut k: usize = 0;
        while k < self.shards.len()
            invariant
                k <= self.shards@.len(),
                self@ == store_views(self.shards@),
                lists_stale(self@, now, timeout, k as nat, all@),
                all@.len() == stale_in(self@, now, timeout, k as nat),
                forall|id: u128| #[trigger]
                    all@.contains(id) <==> exists|j: int|
                        0 <= j < k && #[trigger] stale_ids(self@[j], now, timeout).contains(id),
                unshared(self@) ==> all@.no_duplicates(),
            decreases self.shards@.len() - k,
        {
            let mut found = self.shards[k].collect_stale(now, timeout);
            let ghost before = all@;
            let ghost more = found@;
            let ghost here = stale_ids(self@[k as int], now, timeout);
            proof {
                more.unique_seq_to_set();
                assert forall|id: u128| #[trigger] more.contains(id) <==> here.contains(id) by {
                    assert(more.to_set().contains(id) <==> more.contains(id));
                }
            }
            all.append(&mut found);
            proof {
                assert(all@ =~= before + more);
                assert(lists_stale(self@, now, timeout, (k + 1) as nat, before + more));
                assert forall|id: u128| #[trigger]
                    all@.contains(id) <==> before.contains(id) || more.contains(id) by {
                    lemma_concat_contains(before, more, id);
                }
                assert forall|id: u128| #[trigger]
                    all@.contains(id) <==> exists|j: int|
                        0 <= j < k + 1 && #[trigger] stale_ids(self@[j], now, timeout).contains(
                            id,
                        ) by {
                    if before.contains(id) {
                        let j = choose|j: int|
                            0 <= j < k && #[trigger] stale_ids(self@[j], now, timeout).contains(id);
                        assert(0 <= j < k + 1);
                    }
                    if exists|j: int|
                        0 <= j < k + 1 && #[trigger] stale_ids(self@[j], now, timeout).contains(
                            id,
                        ) {
                        let j = choose|j: int|
                            0 <= j < k + 1 && #[trigger] stale_ids(
                                self@[j],
                                now,
                                timeout,
                            ).contains(id);
                        if j == k {
                            assert(here.contains(id));
                        }
                    }
                }
                if unshared(self@) {
                    assert forall|a: int, b: int|
                        0 <= a < all@.len() && 0 <= b < all@.len() && a != b implies all@[a]
                        != all@[b] by {
                        if a < before.len() && b >= before.len() {
                            lemma_apart(self@, before, more, now, timeout, k as int, a, b
                                - before.len());
                        }
                        if b < before.len() && a >= before.len() {
                            lemma_apart(self@, before, more, now, timeout, k as int, b, a
                                - before.len());
                        }
                    }
                }
            }
            k += 1;
        }
        all
    }

    /// Removes the sessions that have not sent a heartbeat within `timeout` of the moment
    /// `now`, and returns their number.
    ///
    /// The ids of the stale sessions are removed one after the other, shard by shard, those of a
    /// shard in any order. Where no session id is in two shards, each shard is left without its
    /// stale sessions. In any case no other session is removed.
    pub fn cleanup_stale_sessions(&mut self, now: u128, timeout: u128) -> (r: usize)
        ensures
            r == stale_in(old(self)@, now, timeout, old(self)@.len()),
            final(self)@.len() == old(self)@.len(),
            exists|ids: Seq<u128>| #[trigger]
                lists_stale(old(self)@, now, timeout, old(self)@.len(), ids) && final(self)@
                    == removed_in_turn(old(self)@, ids),
            unshared(old(self)@) ==> final(self)@ == cleaned(old(self)@, now, timeout),
            keeps_fresh(old(self)@, final(self)@, now, timeout),
    {
        let ghost before = self@;
        let stale = self.collect_all_stale(now, timeout);
        let ghost ids = stale@;
        let count: usize = stale.len();
        proof {
            lemma_nothing_out(before, ids);
        }
        let mut i: usize = 0;
        while i < stale.len()
            invariant
                i <= stale@.len(),
                ids == stale@,
                unshared(before) ==> ids.no_duplicates(),
                forall|id: u128| #[trigger]
                    ids.contains(id) <==> exists|k: int|
                        0 <= k < before.len() && #[trigger] stale_ids(
                            before[k],
                            now,
                            timeout,
                        ).contains(id),
                self@.len() == before.len(),
                self@ == removed_in_turn(before, ids.take(i as int)),
                unshared(before) ==> self@ == all_without(before, ids.take(i as int).to_set()),
                keeps_fresh(before, self@, now, timeout),
            decreases stale@.len() - i,
        {
            let id: u128 = stale[i];
            let _ = self.remove(&id);
            proof {
                assert(ids.take(i + 1).drop_last() =~= ids.take(i as int));
                assert(ids.contains(id));
                assert(stale_somewhere(before, now, timeout, id));
                if unshared(before) {
                    assert(ids.contains(id));
                    let k = choose|k: int|
                        0 <= k < before.len() && #[trigger] stale_ids(
                            before[k],
                            now,
                            timeout,
                        ).contains(id);
                    lemma_remove_step(before, ids, i as int, k);
                }
            }
            i += 1;
        }
        proof {
            assert(ids.take(i as int) =~= ids);
            if unshared(before) {
                lemma_all_out(before, ids, now, timeout);
            }
        }
        count
    }

    /// Finds the multiplexer of some session.
    pub fn find_multiplexer(&self) -> (r: Option<u64>)
        ensures
            r is Some <==> exists|k: int|
                0 <= k < self@.len() && #[trigger] some_multiplexer(self@[k]),
            r matches Some(m) ==> exists|k: int, id: u128|
                0 <= k < self@.len() && (#[trigger] self@[k].sessions.contains_key(id))
                    && self@[k].sessions[id].multiplexer == Some(m),
    {
        let mut k: usize = 0;
        while k < self.shards.len()
            invariant
                k <= self.shards@.len(),
                self@ == store_views(self.shards@),
                forall|j: int| 0 <= j < k ==> !some_multiplexer(#[trigger] self@[j]),
            decreases self.shards@.len() - k,
        {
            let found = self.shards[k].find_multiplexer();
            proof {
                assert(self@[k as int] == self.shards@[k as int]@);
            }
            if found.is_some() {
                return found;
            }
            k += 1;
        }
        None
    }

    /// Finds the multiplexer of some session that offers a capability.
    pub fn find_multiplexer_with_capability(&self, capability: &str) -> (r: Option<u64>)
        ensures
            r is Some <==> exists|k: int|
                0 <= k < self@.len() && #[trigger] capable_multiplexer(self@[k], capability@),
            r matches Some(m) ==> exists|k: int, id: u128|
                0 <= k < self@.len() && (#[trigger] self@[k].sessions.contains_key(id))
                    && self@[k].sessions[id].multiplexer == Some(m)
                    && self@[k].sessions[id].offers(capability@),
    {
        let mut k: usize = 0;
        while k < self.shards.len()
            invariant
                k <= self.shards@.len(),
                self@ == store_views(self.shards@),
                forall|j: int|
                    0 <= j < k ==> !capable_multiplexer(#[trigger] self@[j], capability@),
            decreases self.shards@.len() - k,
        {
            let found = self.shards[k].find_multiplexer_with_capability(capability);
            proof {
                assert(self@[k as int] == self.shards@[k as int]@);
            }
            if found.is_some() {
                return found;
            }
            k += 1;
        }
        None
    }
}

/// Whether no session id is in two shards.
pub open spec fn unshared(shards: Seq<StoreView>) -> bool {
    forall|a: int, b: int, id: u128|
        0 <= a < shards.len() && 0 <= b < shards.len()
            && #[trigger] shards[a].sessions.contains_key(id)
            && #[trigger] shards[b].sessions.contains_key(id) ==> a == b
}

/// The shards, each without its stale sessions.
pub open spec fn cleaned(shards: Seq<StoreView>, now: u128, timeout: u128) -> Seq<StoreView> {
    Seq::new(
        shards.len(),
        |k: int| without(shards[k], stale_ids(shards[k], now, timeout)),
    )
}

/// The shards, each without the sessions with the given ids.
pub open spec fn all_without(shards: Seq<StoreView>, ids: Set<u128>) -> Seq<StoreView> {
    Seq::new(shards.len(), |k: int| without(shards[k], ids))
}

proof fn lemma_concat_contains(a: Seq<u128>, b: Seq<u128>, x: u128)
    ensures
        (a + b).contains(x) <==> a.contains(x) || b.contains(x),
{
    if (a + b).contains(x) {
        let i = choose|i: int| 0 <= i < (a + b).len() && (a + b)[i] == x;
        if i < a.len() {
            assert(a[i] == x);
        } else {
            assert(b[i - a.len()] == x);
        }
    }
    if a.contains(x) {
        let i = choose|i: int| 0 <= i < a.len() && a[i] == x;
        assert((a + b)[i] == x);
    }
    if b.contains(x) {
        let i = choose|i: int| 0 <= i < b.len() && b[i] == x;
        assert((a + b)[a.len() + i] == x);
    }
}

/// Ids found in earlier shards differ from those found in shard `k`.
proof fn lemma_apart(
    shards: Seq<StoreView>,
    earlier: Seq<u128>,
    here: Seq<u128>,
    now: u128,
    timeout: u128,
    k: int,
    a: int,
    b: int,
)
    requires
        unshared(shards),
        0 <= k < shards.len(),
        0 <= a < earlier.len(),
        0 <= b < here.len(),
        forall|id: u128| #[trigger]
            earlier.contains(id) <==> exists|j: int|
                0 <= j < k && #[trigger] stale_ids(shards[j], now, timeout).contains(id),
        forall|id: u128| #[trigger]
            here.contains(id) <==> stale_ids(shards[k], now, timeout).contains(id),
    ensures
        earlier[a] != here[b],
{
    assert(earlier.contains(earlier[a]));
    assert(here.contains(here[b]));
    if earlier[a] == here[b] {
        let j = choose|j: int|
            0 <= j < k && #[trigger] stale_ids(shards[j], now, timeout).contains(earlier[a]);
        assert(shards[j].sessions.contains_key(earlier[a]));
        assert(shards[k].sessions.contains_key(here[b]));
    }
}

/// Without any ids taken out, the shards are as they were.
proof fn lemma_nothing_out(shards: Seq<StoreView>, ids: Seq<u128>)
    ensures
        all_without(shards, ids.take(0).to_set()) == shards,
{
    let none = ids.take(0).to_set();
    assert(none =~= Set::empty());
    assert forall|k: int| 0 <= k < shards.len() implies without(#[trigger] shards[k], none)
        == shards[k] by {
        assert(crate::session::tunnels_of(shards[k], none) =~= Set::empty());
        assert(without(shards[k], none).sessions =~= shards[k].sessions);
        assert(without(shards[k], none).index =~= shards[k].index);
    }
    assert(all_without(shards, none) =~= shards);
}

/// Removing one more of a list of ids takes it out of the only shard that holds it.
proof fn lemma_remove_step(shards: Seq<StoreView>, ids: Seq<u128>, i: int, k: int)
    requires
        unshared(shards),
        ids.no_duplicates(),
        0 <= i < ids.len(),
        0 <= k < shards.len(),
        shards[k].sessions.contains_key(ids[i]),
    ensures
        ({
            let held = all_without(shards, ids.take(i).to_set());
            &&& holder(held, ids[i], 0) == Some(k)
            &&& held.update(k, removed(held[k], ids[i])) == all_without(
                shards,
                ids.take(i + 1).to_set(),
            )
        }),
{
    let a = ids.take(i).to_set();
    let b = ids.take(i + 1).to_set();
    let id = ids[i];
    let held = all_without(shards, a);
    assert(!a.contains(id)) by {
        if ids.take(i).contains(id) {
            let j = choose|j: int| 0 <= j < i && ids.take(i)[j] == id;
            assert(ids[j] == ids[i]);
        }
    }
    assert(held[k].sessions.contains_key(id));
    lemma_holder(held, id, 0);
    let h = holder(held, id, 0);
    assert(h is Some);
    assert(shards[h->0].sessions.contains_key(id));
    assert(ids.take(i + 1) =~= ids.take(i).push(id));
    assert forall|x: u128| b.contains(x) <==> a.contains(x) || x == id by {
        crate::session::lemma_push_contains(ids.take(i), id, x);
    }
    let left = held.update(k, removed(held[k], id));
    let right = all_without(shards, b);
    assert forall|j: int| 0 <= j < shards.len() implies left[j] == right[j] by {
        if j == k {
            crate::session::lemma_without_step(shards[k], ids, i);
        } else {
            assert(!shards[j].sessions.contains_key(id));
            assert(without(shards[j], a).sessions =~= without(shards[j], b).sessions);
            assert(crate::session::tunnels_of(shards[j], a) =~= crate::session::tunnels_of(
                shards[j],
                b,
            )) by {
                assert forall|t: Seq<char>| #[trigger]
                    crate::session::tunnels_of(shards[j], b).contains(t)
                        <==> crate::session::tunnels_of(shards[j], a).contains(t) by {
                    if crate::session::tunnels_of(shards[j], b).contains(t) {
                        let x = choose|x: u128|
                            b.contains(x) && shards[j].sessions.contains_key(x)
                                && #[trigger] shards[j].sessions[x].tunnel_id@ == t;
                        assert(a.contains(x));
                    }
                    if crate::session::tunnels_of(shards[j], a).contains(t) {
                        let x = choose|x: u128|
                            a.contains(x) && shards[j].sessions.contains_key(x)
                                && #[trigger] shards[j].sessions[x].tunnel_id@ == t;
                        assert(b.contains(x));
                    }
                }
            }
        }
    }
    assert(left =~= right);
}

/// With all stale ids taken out, each shard is without its own stale sessions.
proof fn lemma_all_out(shards: Seq<StoreView>, ids: Seq<u128>, now: u128, timeout: u128)
    requires
        unshared(shards),
        forall|id: u128| #[trigger]
            ids.contains(id) <==> exists|k: int|
                0 <= k < shards.len() && #[trigger] stale_ids(shards[k], now, timeout).contains(id),
    ensures
        all_without(shards, ids.to_set()) == cleaned(shards, now, timeout),
{
    let all = ids.to_set();
    assert forall|k: int| 0 <= k < shards.len() implies without(#[trigger] shards[k], all)
        == without(shards[k], stale_ids(shards[k], now, timeout)) by {
        let own = stale_ids(shards[k], now, timeout);
        assert forall|id: u128| shards[k].sessions.contains_key(id) implies (all.contains(id)
            <==> own.contains(id)) by {
            if all.contains(id) {
                assert(ids.contains(id));
                let j = choose|j: int|
                    0 <= j < shards.len() && #[trigger] stale_ids(
                        shards[j],
                        now,
                        timeout,
                    ).contains(id);
                assert(shards[j].sessions.contains_key(id));
            }
            if own.contains(id) {
                assert(ids.contains(id));
            }
        }
        assert(without(shards[k], all).sessions =~= without(shards[k], own).sessions);
        assert forall|t: Seq<char>| #[trigger]
            crate::session::tunnels_of(shards[k], all).contains(t) <==> crate::session::tunnels_of(
                shards[k],
                own,
            ).contains(t) by {
            if crate::session::tunnels_of(shards[k], all).contains(t) {
                let x = choose|x: u128|
                    all.contains(x) && shards[k].sessions.contains_key(x)
                        && #[trigger] shards[k].sessions[x].tunnel_id@ == t;
                assert(own.contains(x));
            }
            if crate::session::tunnels_of(shards[k], own).contains(t) {
                let x = choose|x: u128|
                    own.contains(x) && shards[k].sessions.contains_key(x)
                        && #[trigger] shards[k].sessions[x].tunnel_id@ == t;
                assert(all.contains(x));
            }
        }
        assert(without(shards[k], all).index =~= without(shards[k], own).index);
    }
    assert(all_without(shards, all) =~= cleaned(shards, now, timeout));
}

proof fn lemma_sessions_in_grows(shards: Seq<StoreView>, a: nat, b: nat)
    requires
        a <= b <= shards.len(),
    ensures
        sessions_in(shards, a) <= sessions_in(shards, b),
    decreases b,
{
    if a < b {
        lemma_sessions_in_grows(shards, a, (b - 1) as nat);
    }
}

/// A store with the session `id` heard of at the moment `now`.
pub open spec fn touched_store(store: StoreView, id: u128, now: u128) -> StoreView {
    StoreView {
        sessions: store.sessions.insert(
            id,
            Session { last_heartbeat: now, ..store.sessions[id] },
        ),
        index: store.index,
    }
}

/// Session store backend: a single pair of maps, or shards of them for high contention.
pub enum SessionStoreBackend {
    Default(SessionStore),
    Sharded(ShardedSessionStore),
}

impl Default for SessionStoreBackend {
    fn default() -> (r: SessionStoreBackend)
        ensures
            r matches SessionStoreBackend::Default(s) && s@ == empty_store(),
    {
        SessionStoreBackend::Default(SessionStore::new())
    }
}

impl SessionStoreBackend {
    /// What the store that serves a tunnel id holds: the store itself, or one of its shards.
    pub open spec fn part(&self, tunnel_id: Seq<char>) -> StoreView {
        match self {
            SessionStoreBackend::Default(s) => s@,
            SessionStoreBackend::Sharded(s) => s@[shard_of(tunnel_id, s@.len())],
        }
    }

    /// Whether there is a store for every tunnel id.
    pub open spec fn wf(&self) -> bool {
        self matches SessionStoreBackend::Sharded(s) ==> s@.len() > 0
    }

    /// Whether `after` is this store with the part that serves a tunnel id put in the place
    /// of the one it had.
    pub open spec fn updated(&self, after: &SessionStoreBackend, tunnel_id: Seq<char>, part: StoreView) -> bool {
        match (self, after) {
            (SessionStoreBackend::Default(_), SessionStoreBackend::Default(b)) => b@ == part,
            (SessionStoreBackend::Sharded(a), SessionStoreBackend::Sharded(b)) => b@ == a@.update(
                shard_of(tunnel_id, a@.len()),
                part,
            ),
            _ => false,
        }
    }

    /// Whether `after` holds what this store holds.
    pub open spec fn unchanged(&self, after: &SessionStoreBackend) -> bool {
        match (self, after) {
            (SessionStoreBackend::Default(a), SessionStoreBackend::Default(b)) => a@ == b@,
            (SessionStoreBackend::Sharded(a), SessionStoreBackend::Sharded(b)) => a@ == b@,
            _ => false,
        }
    }

    /// Whether `after` is this store with the session `id` heard of at the moment `now`, and
    /// nothing else changed.
    pub open spec fn touched(&self, after: &SessionStoreBackend, id: u128, now: u128) -> bool {
        match (self, after) {
            (SessionStoreBackend::Default(a), SessionStoreBackend::Default(b)) => b@
                == touched_store(a@, id, now),
            (SessionStoreBackend::Sharded(a), SessionStoreBackend::Sharded(b)) => {
                let k = holder(a@, id, 0)->0;
                b@ == a@.update(k, touched_store(a@[k], id, now))
            },
            _ => false,
        }
    }

    /// The session with the given id, where there is one.
    pub open spec fn session(&self, id: u128) -> Option<Session> {
        match self {
            SessionStoreBackend::Default(s) => if s@.sessions.contains_key(id) {
                Some(s@.sessions[id])
            } else {
                None
            },
            SessionStoreBackend::Sharded(s) => match holder(s@, id, 0) {
                Some(k) => Some(s@[k].sessions[id]),
                None => None,
            },
        }
    }

    /// Adds a new session, unless its tunnel id is registered by a different session.
    pub fn add(&mut self, session: Session) -> (r: Result<(), SessionStoreError>)
        requires
            old(self).wf(),
        ensures
            r is Err <==> conflict(old(self).part(session.tunnel_id@), session),
            r is Ok ==> old(self).updated(
                final(self),
                session.tunnel_id@,
                added(old(self).part(session.tunnel_id@), session),
            ),
            r is Err ==> old(self).unchanged(final(self)),
            r matches Err(e) ==> e->TunnelIdAlreadyExists_0@ == session.tunnel_id@,
    {
        match self {
            SessionStoreBackend::Default(s) => s.add(session),
            SessionStoreBackend::Sharded(s) => s.add(session),
        }
    }

    /// Adds a session in the place of any other with the same tunnel id.
    pub fn add_or_replace(&mut self, session: Session)
        requires
            old(self).wf(),
        ensures
            old(self).updated(
                final(self),
                session.tunnel_id@,
                replaced(old(self).part(session.tunnel_id@), session),
            ),
    {
        match self {
            SessionStoreBackend::Default(s) => s.add_or_replace(session),
            SessionStoreBackend::Sharded(s) => s.add_or_replace(session),
        }
    }

    /// Borrows a session by id.
    pub fn get(&self, id: &u128) -> (r: Option<dashmap::mapref::one::Ref<'_, u128, Session>>)
        ensures
            r is Some <==> self.session(*id) is Some,
            r matches Some(e) ==> self.session(*id) == Some(session_at(e)),
    {
        match self {
            SessionStoreBackend::Default(s) => s.get(id),
            SessionStoreBackend::Sharded(s) => s.get(id),
        }
    }

    /// Borrows a session by tunnel id.
    pub fn get_by_tunnel_id(&self, tunnel_id: &str) -> (r: Option<
        dashmap::mapref::one::Ref<'_, u128, Session>,
    >)
        requires
            self.wf(),
        ensures
            r is Some <==> lookup(self.part(tunnel_id@), tunnel_id@) is Some,
            r matches Some(e) ==> lookup(self.part(tunnel_id@), tunnel_id@) == Some(session_at(e)),
    {
        match self {
            SessionStoreBackend::Default(s) => s.get_by_tunnel_id(tunnel_id),
            SessionStoreBackend::Sharded(s) => s.get_by_tunnel_id(tunnel_id),
        }
    }

    /// Records that the client of a session was heard of at the moment `now`; `false` where
    /// there is no such session.
    pub fn update_heartbeat(&mut self, id: &u128, now: u128) -> (r: bool)
        ensures
            r <==> old(self).session(*id) is Some,
            r ==> final(self).session(*id) == Some(
                Session { last_heartbeat: now, ..old(self).session(*id)->0 },
            ),
            r ==> old(self).touched(final(self), *id, now),
            !r ==> old(self).unchanged(final(self)),
    {
        match self {
            SessionStoreBackend::Default(s) => s.update_heartbeat(id, now),
            SessionStoreBackend::Sharded(s) => {
                let ghost before = s@;
                let r = s.update_heartbeat(id, now);
                proof {
                    if r {
                        lemma_holder(before, *id, 0);
                        lemma_holder_stays(before, s@, *id, 0, holder(before, *id, 0)->0);
                    }
                }
                r
            },
        }
    }

    /// The rate limiter of a session.
    pub fn rate_limiter(&self, id: &u128) -> (r: Option<SessionRateLimiter>)
        ensures
            self.session(*id) is None ==> r is None,
            self.session(*id) matches Some(s) ==> r == s.rate_limiter,
    {
        match self.get(id) {
            Some(entry) => {
                let session = entry_session(&entry);
                match &session.rate_limiter {
                    Some(limiter) => Some(limiter.clone()),
                    None => None,
                }
            },
            None => None,
        }
    }

    /// The multiplexer of the session that a tunnel id leads to, where there is a session, and
    /// where it has one.
    pub fn multiplexer_of(&self, tunnel_id: &str) -> (r: Option<Option<u64>>)
        requires
            self.wf(),
        ensures
            match lookup(self.part(tunnel_id@), tunnel_id@) {
                Some(session) => r == Some(session.multiplexer),
                None => r is None,
            },
    {
        match self.get_by_tunnel_id(tunnel_id) {
            Some(entry) => Some(entry_session(&entry).multiplexer),
            None => None,
        }
    }

    /// Removes a session and its tunnel id.
    pub fn remove(&mut self, id: &u128) -> (r: Option<Session>)
        ensures
            r == old(self).session(*id),
            r matches Some(s) ==> match (*old(self), *final(self)) {
                (SessionStoreBackend::Default(a), SessionStoreBackend::Default(b)) => b@ == removed(
                    a@,
                    *id,
                ),
                (SessionStoreBackend::Sharded(a), SessionStoreBackend::Sharded(b)) => {
                    let k = holder(a@, *id, 0)->0;
                    b@ == a@.update(k, removed(a@[k], *id))
                },
                _ => false,
            },
            r is None ==> old(self).unchanged(final(self)),
    {
        match self {
            SessionStoreBackend::Default(s) => s.remove(id),
            SessionStoreBackend::Sharded(s) => s.remove(id),
        }
    }

    /// The number of sessions.
    pub open spec fn size(&self) -> nat {
        match self {
            SessionStoreBackend::Default(s) => s@.sessions.dom().len(),
            SessionStoreBackend::Sharded(s) => sessions_in(s@, s@.len()),
        }
    }

    /// Whether there are finitely many sessions.
    pub open spec fn finite(&self) -> bool {
        match self {
            SessionStoreBackend::Default(s) => s@.sessions.dom().finite(),
            SessionStoreBackend::Sharded(s) => finite_shards(s@),
        }
    }

    /// Counts active sessions.
    pub fn count(&self) -> (r: usize)
        requires
            self.size() <= usize::MAX,
        ensures
            self.finite(),
            r == self.size(),
    {
        match self {
            SessionStoreBackend::Default(s) => s.count(),
            SessionStoreBackend::Sharded(s) => s.count(),
        }
    }

    /// Removes the sessions that have not sent a heartbeat within `timeout` of the moment
    /// `now`, and returns their number.
    pub fn cleanup_stale_sessions(&mut self, now: u128, timeout: u128) -> (r: usize)
        ensures
            match (*old(self), *final(self)) {
                (SessionStoreBackend::Default(a), SessionStoreBackend::Default(b)) => b@ == without(
                    a@,
                    stale_ids(a@, now, timeout),
                ) && r == stale_ids(a@, now, timeout).len(),
                (SessionStoreBackend::Sharded(a), SessionStoreBackend::Sharded(b)) => (exists|
                    ids: Seq<u128>,
                | #[trigger]
                    lists_stale(a@, now, timeout, a@.len(), ids) && b@ == removed_in_turn(a@, ids))
                    && b@.len() == a@.len() && (unshared(a@) ==> b@ == cleaned(a@, now, timeout))
                    && keeps_fresh(a@, b@, now, timeout) && r == stale_in(
                    a@,
                    now,
                    timeout,
                    a@.len(),
                ),
                _ => false,
            },
    {
        match self {
            SessionStoreBackend::Default(s) => s.cleanup_stale_sessions(now, timeout),
            SessionStoreBackend::Sharded(s) => s.cleanup_stale_sessions(now, timeout),
        }
    }

    /// Whether a session that offers a capability has a multiplexer.
    pub open spec fn offers_capability(&self, capability: Seq<char>) -> bool {
        match self {
            SessionStoreBackend::Default(s) => capable_multiplexer(s@, capability),
            SessionStoreBackend::Sharded(s) => exists|k: int|
                0 <= k < s@.len() && #[trigger] capable_multiplexer(s@[k], capability),
        }
    }

    /// Whether a session that offers a capability has this multiplexer.
    pub open spec fn has_capable(&self, capability: Seq<char>, multiplexer: u64) -> bool {
        match self {
            SessionStoreBackend::Default(s) => exists|id: u128| #[trigger]
                s@.sessions.contains_key(id) && s@.sessions[id].multiplexer == Some(multiplexer)
                    && s@.sessions[id].offers(capability),
            SessionStoreBackend::Sharded(s) => exists|k: int, id: u128|
                0 <= k < s@.len() && (#[trigger] s@[k].sessions.contains_key(id))
                    && s@[k].sessions[id].multiplexer == Some(multiplexer)
                    && s@[k].sessions[id].offers(capability),
        }
    }

    /// Finds the multiplexer of some session that offers a capability.
    pub fn find_multiplexer_with_capability(&self, capability: &str) -> (r: Option<u64>)
        ensures
            r is Some <==> self.offers_capability(capability@),
            r matches Some(m) ==> self.has_capable(capability@, m),
    {
        match self {
            SessionStoreBackend::Default(s) => s.find_multiplexer_with_capability(capability),
            SessionStoreBackend::Sharded(s) => s.find_multiplexer_with_capability(capability),
        }
    }
}

/// A change of the shard that holds an id, which keeps the id there, keeps it the holder.
proof fn lemma_holder_stays(a: Seq<StoreView>, b: Seq<StoreView>, id: u128, from: int, k: int)
    requires
        0 <= from,
        holder(a, id, from) == Some(k),
        a.len() == b.len(),
        b[k].sessions.contains_key(id),
        forall|j: int| 0 <= j < a.len() && j != k ==> a[j] == b[j],
    ensures
        holder(b, id, from) == Some(k),
    decreases a.len() - from,
{
    lemma_holder(a, id, from);
    if from != k {
        lemma_holder_stays(a, b, id, from + 1, k);
    }
}

/// The sessions in the first shards, where one shard was put in the place of another.
proof fn lemma_sessions_in_update(shards: Seq<StoreView>, k: int, shard: StoreView, n: nat)
    requires
        0 <= k < shards.len(),
        n <= shards.len(),
    ensures
        sessions_in(shards.update(k, shard), n) + (if k < n {
            shards[k].sessions.dom().len()
        } else {
            0
        }) == sessions_in(shards, n) + (if k < n {
            shard.sessions.dom().len()
        } else {
            0
        }),
    decreases n,
{
    if n > 0 {
        lemma_sessions_in_update(shards, k, shard, (n - 1) as nat);
    }
}

/// Adding a session under an id that is not in its shard raises the count over all shards by
/// one.
pub proof fn law_adding_raises_the_sharded_count(shards: Seq<StoreView>, session: Session)
    requires
        shards.len() > 0,
        finite_shards(shards),
        !shards[shard_of(session.tunnel_id@, shards.len())].sessions.contains_key(session.id),
    ensures
        ({
            let k = shard_of(session.tunnel_id@, shards.len());
            let after = shards.update(k, added(shards[k], session));
            &&& finite_shards(after)
            &&& sessions_in(after, after.len()) == sessions_in(shards, shards.len()) + 1
        }),
{
    let k = shard_of(session.tunnel_id@, shards.len());
    law_adding_raises_the_count(shards[k], session);
    lemma_sessions_in_update(shards, k, added(shards[k], session), shards.len());
}

/// Where each shard is left without its stale sessions, the count over all shards is lowered by
/// their number.
pub proof fn law_cleanup_lowers_the_sharded_count(
    shards: Seq<StoreView>,
    now: u128,
    timeout: u128,
)
    requires
        finite_shards(shards),
    ensures
        ({
            let after = cleaned(shards, now, timeout);
            &&& finite_shards(after)
            &&& sessions_in(after, after.len()) + stale_in(shards, now, timeout, shards.len())
                == sessions_in(shards, shards.len())
        }),
{
    let after = cleaned(shards, now, timeout);
    assert forall|k: int| 0 <= k < after.len() implies (#[trigger] after[k]).sessions.dom().finite() by {
        law_cleanup_lowers_the_count(shards[k], now, timeout);
    }
    lemma_sessions_in_cleaned(shards, now, timeout, shards.len());
}

proof fn lemma_sessions_in_cleaned(shards: Seq<StoreView>, now: u128, timeout: u128, n: nat)
    requires
        finite_shards(shards),
        n <= shards.len(),
    ensures
        sessions_in(cleaned(shards, now, timeout), n) + stale_in(shards, now, timeout, n)
            == sessions_in(shards, n),
    decreases n,
{
    if n > 0 {
        lemma_sessions_in_cleaned(shards, now, timeout, (n - 1) as nat);
        law_cleanup_lowers_the_count(shards[n - 1], now, timeout);
    }
}

/// A tunnel id leads to the session that was added under it, in whatever shard that is.
pub proof fn law_sharded_lookup_finds_added(shards: Seq<StoreView>, session: Session)
    requires
        shards.len() > 0,
        !conflict(shards[shard_of(session.tunnel_id@, shards.len())], session),
    ensures
        ({
            let k = shard_of(session.tunnel_id@, shards.len());
            lookup(shards.update(k, added(shards[k], session))[k], session.tunnel_id@) == Some(
                session,
            )
        }),
{
    assert(0 <= shard_of(session.tunnel_id@, shards.len()) < shards.len()) by (nonlinear_arith)
        requires
            shards.len() > 0,
            shard_of(session.tunnel_id@, shards.len()) == (text_hash(
                session.tunnel_id@,
            ) as usize) as int % shards.len() as int,
    ;
}

/// A call that changes a store.
pub enum StoreCall {
    Add(Session),
    AddOrReplace(Session),
    Remove(u128),
}

/// The session that a call brings, where it brings one.
pub open spec fn brought(call: StoreCall) -> Option<Session> {
    match call {
        StoreCall::Add(session) | StoreCall::AddOrReplace(session) => Some(session),
        StoreCall::Remove(_) => None,
    }
}

/// What a call answers: whether a session was refused, and the session that was removed.
pub open spec fn plain_answer(store: StoreView, call: StoreCall) -> (bool, Option<Session>) {
    match call {
        StoreCall::Add(session) => (conflict(store, session), None),
        StoreCall::AddOrReplace(_) => (false, None),
        StoreCall::Remove(id) => (
            false,
            if store.sessions.contains_key(id) {
                Some(store.sessions[id])
            } else {
                None
            },
        ),
    }
}

/// A plain store after a call.
pub open spec fn plain_after(store: StoreView, call: StoreCall) -> StoreView {
    match call {
        StoreCall::Add(session) => if conflict(store, session) {
            store
        } else {
            added(store, session)
        },
        StoreCall::AddOrReplace(session) => replaced(store, session),
        StoreCall::Remove(id) => removed(store, id),
    }
}

/// What a call answers on a store in shards.
pub open spec fn sharded_answer(shards: Seq<StoreView>, call: StoreCall) -> (bool, Option<Session>) {
    match call {
        StoreCall::Add(session) => (
            conflict(shards[shard_of(session.tunnel_id@, shards.len())], session),
            None,
        ),
        StoreCall::AddOrReplace(_) => (false, None),
        StoreCall::Remove(id) => (
            false,
            match holder(shards, id, 0) {
                Some(k) => Some(shards[k].sessions[id]),
                None => None,
            },
        ),
    }
}

/// A store in shards after a call.
pub open spec fn sharded_after(shards: Seq<StoreView>, call: StoreCall) -> Seq<StoreView> {
    match call {
        StoreCall::Add(session) => {
            let k = shard_of(session.tunnel_id@, shards.len());
            if conflict(shards[k], session) {
                shards
            } else {
                shards.update(k, added(shards[k], session))
            }
        },
        StoreCall::AddOrReplace(session) => {
            let k = shard_of(session.tunnel_id@, shards.len());
            shards.update(k, replaced(shards[k], session))
        },
        StoreCall::Remove(id) => match holder(shards, id, 0) {
            Some(k) => shards.update(k, removed(shards[k], id)),
            None => shards,
        },
    }
}

/// A new plain store after a sequence of calls.
pub open spec fn plain_run(calls: Seq<StoreCall>) -> StoreView
    decreases calls.len(),
{
    if calls.len() == 0 {
        empty_store()
    } else {
        plain_after(plain_run(calls.drop_last()), calls.last())
    }
}

/// A new store of `n` shards after a sequence of calls.
pub open spec fn sharded_run(calls: Seq<StoreCall>, n: nat) -> Seq<StoreView>
    decreases calls.len(),
{
    if calls.len() == 0 {
        Seq::new(n, |i: int| empty_store())
    } else {
        sharded_after(sharded_run(calls.drop_last(), n), calls.last())
    }
}

/// Whether every session id comes with one tunnel id only.
pub open spec fn one_tunnel_each(calls: Seq<StoreCall>) -> bool {
    forall|i: int, j: int|
        #![trigger brought(calls[i]), brought(calls[j])]
        0 <= i < calls.len() && 0 <= j < calls.len() && brought(calls[i]) is Some && brought(
            calls[j],
        ) is Some && brought(calls[i])->0.id == brought(calls[j])->0.id ==> brought(
            calls[i],
        )->0.tunnel_id@ == brought(calls[j])->0.tunnel_id@
}

/// Whether lookups by tunnel id, lookups by id and the count give the same on a plain store
/// and on one in shards.
pub open spec fn same_lookups(store: StoreView, shards: Seq<StoreView>) -> bool {
    &&& forall|t: Seq<char>| #[trigger]
        lookup(store, t) == lookup(shards[shard_of(t, shards.len())], t)
    &&& forall|id: u128|
        match #[trigger] holder(shards, id, 0) {
            Some(k) => store.sessions.contains_key(id) && store.sessions[id]
                == shards[k].sessions[id],
            None => !store.sessions.contains_key(id),
        }
    &&& sessions_in(shards, shards.len()) == store.sessions.dom().len()
}

/// Whether shards hold what a store holds, each session and each tunnel id in the shard of its
/// tunnel id.
spec fn split_up(store: StoreView, shards: Seq<StoreView>) -> bool {
    &&& shards.len() > 0
    &&& store.sessions.dom().finite()
    &&& consistent(store)
    &&& forall|k: int, id: u128|
        #![trigger shards[k].sessions.contains_key(id)]
        0 <= k < shards.len() ==> (shards[k].sessions.contains_key(id) <==> (
        store.sessions.contains_key(id) && shard_of(store.sessions[id].tunnel_id@, shards.len())
            == k))
    &&& forall|k: int, id: u128|
        #![trigger shards[k].sessions[id]]
        0 <= k < shards.len() && shards[k].sessions.contains_key(id) ==> shards[k].sessions[id]
            == store.sessions[id]
    &&& forall|k: int, t: Seq<char>|
        #![trigger shards[k].index.contains_key(t)]
        0 <= k < shards.len() ==> (shards[k].index.contains_key(t) <==> (store.index.contains_key(t)
            && shard_of(t, shards.len()) == k))
    &&& forall|k: int, t: Seq<char>|
        #![trigger shards[k].index[t]]
        0 <= k < shards.len() && shards[k].index.contains_key(t) ==> shards[k].index[t]
            == store.index[t]
}

/// A tunnel id has a shard.
proof fn lemma_shard_of(t: Seq<char>, n: nat)
    requires
        n > 0,
    ensures
        0 <= shard_of(t, n) < n,
{
    assert(0 <= (text_hash(t) as usize) as int % n as int) by (nonlinear_arith)
        requires
            n > 0,
    ;
    assert((text_hash(t) as usize) as int % (n as int) < n) by (nonlinear_arith)
        requires
            n > 0,
    ;
}

/// One call keeps shards and store alike, and answers the same.
proof fn lemma_one_call(store: StoreView, shards: Seq<StoreView>, call: StoreCall)
    requires
        split_up(store, shards),
        brought(call) matches Some(s) ==> (store.sessions.contains_key(s.id)
            ==> store.sessions[s.id].tunnel_id@ == s.tunnel_id@),
    ensures
        split_up(plain_after(store, call), sharded_after(shards, call)),
        plain_answer(store, call) == sharded_answer(shards, call),
        sharded_after(shards, call).len() == shards.len(),
{
    let n = shards.len();
    let after = plain_after(store, call);
    let parts = sharded_after(shards, call);
    match call {
        StoreCall::Add(session) => {
            let t = session.tunnel_id@;
            let k = shard_of(t, n);
            lemma_shard_of(t, n);
            assert(shards[k].index.contains_key(t) == store.index.contains_key(t));
            if store.index.contains_key(t) {
                assert(shards[k].index[t] == store.index[t]);
            }
            if !conflict(store, session) {
                law_add_keeps_agreement(store, session);
                assert forall|j: int, id: u128|
                    #![trigger parts[j].sessions.contains_key(id)]
                    0 <= j < n implies (parts[j].sessions.contains_key(id) <==> (
                after.sessions.contains_key(id) && shard_of(after.sessions[id].tunnel_id@, n)
                    == j)) by {
                    assert(shards[j].sessions.contains_key(id) <==> (store.sessions.contains_key(id)
                        && shard_of(store.sessions[id].tunnel_id@, n) == j));
                }
                assert forall|j: int, id: u128|
                    #![trigger parts[j].sessions[id]]
                    0 <= j < n && parts[j].sessions.contains_key(id) implies parts[j].sessions[id]
                    == after.sessions[id] by {
                    assert(shards[j].sessions.contains_key(id) ==> shards[j].sessions[id]
                        == store.sessions[id]);
                }
                assert forall|j: int, u: Seq<char>|
                    #![trigger parts[j].index.contains_key(u)]
                    0 <= j < n implies (parts[j].index.contains_key(u) <==> (
                after.index.contains_key(u) && shard_of(u, n) == j)) by {
                    assert(shards[j].index.contains_key(u) <==> (store.index.contains_key(u)
                        && shard_of(u, n) == j));
                }
                assert forall|j: int, u: Seq<char>|
                    #![trigger parts[j].index[u]]
                    0 <= j < n && parts[j].index.contains_key(u) implies parts[j].index[u]
                    == after.index[u] by {
                    assert(shards[j].index.contains_key(u) ==> shards[j].index[u]
                        == store.index[u]);
                }
            }
        },
        StoreCall::AddOrReplace(session) => {
            let t = session.tunnel_id@;
            let k = shard_of(t, n);
            lemma_shard_of(t, n);
            assert(shards[k].index.contains_key(t) == store.index.contains_key(t));
            if store.index.contains_key(t) {
                assert(shards[k].index[t] == store.index[t]);
            }
            law_replace_leaves_one_session(store, session);
            assert forall|j: int, id: u128|
                #![trigger parts[j].sessions.contains_key(id)]
                0 <= j < n implies (parts[j].sessions.contains_key(id) <==> (
            after.sessions.contains_key(id) && shard_of(after.sessions[id].tunnel_id@, n) == j)) by {
                assert(shards[j].sessions.contains_key(id) <==> (store.sessions.contains_key(id)
                    && shard_of(store.sessions[id].tunnel_id@, n) == j));
            }
            assert forall|j: int, id: u128|
                #![trigger parts[j].sessions[id]]
                0 <= j < n && parts[j].sessions.contains_key(id) implies parts[j].sessions[id]
                == after.sessions[id] by {
                assert(shards[j].sessions.contains_key(id) ==> shards[j].sessions[id]
                    == store.sessions[id]);
            }
            assert forall|j: int, u: Seq<char>|
                #![trigger parts[j].index.contains_key(u)]
                0 <= j < n implies (parts[j].index.contains_key(u) <==> (after.index.contains_key(u)
                && shard_of(u, n) == j)) by {
                assert(shards[j].index.contains_key(u) <==> (store.index.contains_key(u)
                    && shard_of(u, n) == j));
            }
            assert forall|j: int, u: Seq<char>|
                #![trigger parts[j].index[u]]
                0 <= j < n && parts[j].index.contains_key(u) implies parts[j].index[u]
                == after.index[u] by {
                assert(shards[j].index.contains_key(u) ==> shards[j].index[u] == store.index[u]);
            }
        },
        StoreCall::Remove(id) => {
            lemma_holder(shards, id, 0);
            if store.sessions.contains_key(id) {
                let t = store.sessions[id].tunnel_id@;
                let k = shard_of(t, n);
                lemma_shard_of(t, n);
                assert(shards[k].sessions.contains_key(id));
                assert(holder(shards, id, 0) == Some(k));
                assert(shards[k].sessions[id] == store.sessions[id]);
                law_remove_frees_the_tunnel_id(store, id);
                assert forall|j: int, x: u128|
                    #![trigger parts[j].sessions.contains_key(x)]
                    0 <= j < n implies (parts[j].sessions.contains_key(x) <==> (
                after.sessions.contains_key(x) && shard_of(after.sessions[x].tunnel_id@, n) == j)) by {
                    assert(shards[j].sessions.contains_key(x) <==> (store.sessions.contains_key(x)
                        && shard_of(store.sessions[x].tunnel_id@, n) == j));
                }
                assert forall|j: int, x: u128|
                    #![trigger parts[j].sessions[x]]
                    0 <= j < n && parts[j].sessions.contains_key(x) implies parts[j].sessions[x]
                    == after.sessions[x] by {
                    assert(shards[j].sessions.contains_key(x) ==> shards[j].sessions[x]
                        == store.sessions[x]);
                }
                assert forall|j: int, u: Seq<char>|
                    #![trigger parts[j].index.contains_key(u)]
                    0 <= j < n implies (parts[j].index.contains_key(u) <==> (
                after.index.contains_key(u) && shard_of(u, n) == j)) by {
                    assert(shards[j].index.contains_key(u) <==> (store.index.contains_key(u)
                        && shard_of(u, n) == j));
                }
                assert forall|j: int, u: Seq<char>|
                    #![trigger parts[j].index[u]]
                    0 <= j < n && parts[j].index.contains_key(u) implies parts[j].index[u]
                    == after.index[u] by {
                    assert(shards[j].index.contains_key(u) ==> shards[j].index[u]
                        == store.index[u]);
                }
            } else {
                if holder(shards, id, 0) is Some {
                    let k = holder(shards, id, 0)->0;
                    assert(shards[k].sessions.contains_key(id));
                }
            }
        },
    }
}

/// The sessions of the first `m` shards are those whose tunnel id belongs there.
proof fn lemma_count(store: StoreView, shards: Seq<StoreView>, m: nat)
    requires
        split_up(store, shards),
        m <= shards.len(),
    ensures
        sessions_in(shards, m) == store.sessions.dom().filter(
            |id: u128| shard_of(store.sessions[id].tunnel_id@, shards.len()) < m,
        ).len(),
    decreases m,
{
    let n = shards.len();
    let all = store.sessions.dom();
    let upto = all.filter(|id: u128| shard_of(store.sessions[id].tunnel_id@, n) < m);
    if m == 0 {
        assert forall|id: u128| !(#[trigger] upto.contains(id)) by {
            lemma_shard_of(store.sessions[id].tunnel_id@, n);
        }
        assert(upto =~= Set::empty());
    } else {
        lemma_count(store, shards, (m - 1) as nat);
        let before = all.filter(
            |id: u128| shard_of(store.sessions[id].tunnel_id@, n) < (m - 1) as nat,
        );
        let last = shards[m - 1].sessions.dom();
        assert forall|id: u128| #[trigger] last.contains(id) == (all.contains(id) && shard_of(
            store.sessions[id].tunnel_id@,
            n,
        ) == m - 1) by {
            assert(shards[m - 1].sessions.contains_key(id) == last.contains(id));
        }
        assert(last.subset_of(all));
        vstd::set_lib::lemma_len_subset(last, all);
        assert(upto =~= before.union(last));
        assert(before.disjoint(last));
        vstd::set_lib::lemma_set_disjoint_lens(before, last);
    }
}

/// Shards that hold what a store holds answer lookups as the store does.
proof fn lemma_same_lookups(store: StoreView, shards: Seq<StoreView>)
    requires
        split_up(store, shards),
    ensures
        same_lookups(store, shards),
{
    let n = shards.len();
    assert forall|t: Seq<char>| #[trigger]
        lookup(store, t) == lookup(shards[shard_of(t, n)], t) by {
        let k = shard_of(t, n);
        lemma_shard_of(t, n);
        assert(shards[k].index.contains_key(t) == store.index.contains_key(t));
        if store.index.contains_key(t) {
            let id = store.index[t];
            assert(shards[k].index[t] == id);
            assert(store.sessions.contains_key(id) && store.sessions[id].tunnel_id@ == t);
            assert(shards[k].sessions.contains_key(id));
            assert(shards[k].sessions[id] == store.sessions[id]);
        }
    }
    assert forall|id: u128|
        match #[trigger] holder(shards, id, 0) {
            Some(k) => store.sessions.contains_key(id) && store.sessions[id]
                == shards[k].sessions[id],
            None => !store.sessions.contains_key(id),
        } by {
        lemma_holder(shards, id, 0);
        match holder(shards, id, 0) {
            Some(k) => {
                assert(shards[k].sessions.contains_key(id));
                assert(shards[k].sessions[id] == store.sessions[id]);
            },
            None => {
                if store.sessions.contains_key(id) {
                    let k = shard_of(store.sessions[id].tunnel_id@, n);
                    lemma_shard_of(store.sessions[id].tunnel_id@, n);
                    assert(shards[k].sessions.contains_key(id));
                }
            },
        }
    }
    lemma_count(store, shards, n);
    let within = store.sessions.dom().filter(
        |id: u128| shard_of(store.sessions[id].tunnel_id@, n) < n,
    );
    assert forall|id: u128| store.sessions.dom().contains(id) implies within.contains(id) by {
        lemma_shard_of(store.sessions[id].tunnel_id@, n);
    }
    assert(within =~= store.sessions.dom());
}

/// Every session of a run came with the tunnel id that it has.
proof fn lemma_came_from_a_call(calls: Seq<StoreCall>, id: u128)
    requires
        plain_run(calls).sessions.contains_key(id),
    ensures
        exists|i: int|
            0 <= i < calls.len() && (#[trigger] brought(calls[i])) is Some && brought(
                calls[i],
            )->0.id == id && brought(calls[i])->0 == plain_run(calls).sessions[id],
    decreases calls.len(),
{
    if calls.len() > 0 {
        let front = calls.drop_last();
        let last = calls.last();
        if brought(last) is Some && brought(last)->0.id == id && plain_run(calls).sessions[id]
            == brought(last)->0 {
            assert(calls[calls.len() - 1] == last);
            assert(brought(calls[calls.len() - 1]) is Some);
        } else {
            assert(plain_run(front).sessions.contains_key(id) && plain_run(front).sessions[id]
                == plain_run(calls).sessions[id]);
            lemma_came_from_a_call(front, id);
            let i = choose|i: int|
                0 <= i < front.len() && (#[trigger] brought(front[i])) is Some && brought(
                    front[i],
                )->0.id == id && brought(front[i])->0 == plain_run(front).sessions[id];
            assert(calls[i] == front[i]);
            assert(brought(calls[i]) is Some);
        }
    }
}

/// What holds of a sequence of calls holds of it without the last, and a session that the last
/// brings comes with the tunnel id that it had.
proof fn lemma_last_call(calls: Seq<StoreCall>)
    requires
        calls.len() > 0,
        one_tunnel_each(calls),
    ensures
        one_tunnel_each(calls.drop_last()),
        brought(calls.last()) matches Some(s) ==> (plain_run(
            calls.drop_last(),
        ).sessions.contains_key(s.id) ==> plain_run(calls.drop_last()).sessions[s.id].tunnel_id@
            == s.tunnel_id@),
{
    let front = calls.drop_last();
    assert forall|i: int, j: int|
        #![trigger brought(front[i]), brought(front[j])]
        0 <= i < front.len() && 0 <= j < front.len() && brought(front[i]) is Some && brought(
            front[j],
        ) is Some && brought(front[i])->0.id == brought(front[j])->0.id implies brought(
        front[i],
    )->0.tunnel_id@ == brought(front[j])->0.tunnel_id@ by {
        assert(front[i] == calls[i] && front[j] == calls[j]);
        assert(brought(calls[i]) is Some && brought(calls[j]) is Some);
    }
    if let Some(s) = brought(calls.last()) {
        if plain_run(front).sessions.contains_key(s.id) {
            lemma_came_from_a_call(front, s.id);
            let i = choose|i: int|
                0 <= i < front.len() && (#[trigger] brought(front[i])) is Some && brought(
                    front[i],
                )->0.id == s.id && brought(front[i])->0 == plain_run(front).sessions[s.id];
            assert(front[i] == calls[i]);
            assert(brought(calls[i]) is Some && brought(calls[calls.len() - 1]) is Some);
        }
    }
}

/// After any sequence of calls shards hold what a plain store holds.
proof fn lemma_runs_stay_alike(calls: Seq<StoreCall>, n: nat)
    requires
        n > 0,
        one_tunnel_each(calls),
    ensures
        split_up(plain_run(calls), sharded_run(calls, n)),
        sharded_run(calls, n).len() == n,
    decreases calls.len(),
{
    if calls.len() > 0 {
        lemma_last_call(calls);
        lemma_runs_stay_alike(calls.drop_last(), n);
        lemma_one_call(
            plain_run(calls.drop_last()),
            sharded_run(calls.drop_last(), n),
            calls.last(),
        );
    }
}

/// A store in shards answers every sequence of calls as a plain store does, whatever the number
/// of shards: each call of the sequence is answered the same, and after each lookups by tunnel
/// id, lookups by id and the count give the same. Each session id comes with one tunnel id.
pub proof fn law_shards_answer_as_one_store(calls: Seq<StoreCall>, n: nat)
    requires
        n > 0,
        one_tunnel_each(calls),
    ensures
        forall|i: int|
            0 <= i <= calls.len() ==> same_lookups(
                plain_run(#[trigger] calls.take(i)),
                sharded_run(calls.take(i), n),
            ),
        forall|i: int|
            0 <= i < calls.len() ==> plain_answer(plain_run(calls.take(i)), #[trigger] calls[i])
                == sharded_answer(sharded_run(calls.take(i), n), calls[i]),
    decreases calls.len(),
{
    lemma_runs_stay_alike(calls, n);
    lemma_same_lookups(plain_run(calls), sharded_run(calls, n));
    assert(calls.take(calls.len() as int) =~= calls);
    if calls.len() > 0 {
        let front = calls.drop_last();
        lemma_last_call(calls);
        lemma_runs_stay_alike(front, n);
        lemma_one_call(plain_run(front), sharded_run(front, n), calls.last());
        law_shards_answer_as_one_store(front, n);
        assert(calls.take(calls.len() - 1) =~= front);
        assert forall|i: int| 0 <= i <= calls.len() implies same_lookups(
            plain_run(#[trigger] calls.take(i)),
            sharded_run(calls.take(i), n),
        ) by {
            if i < calls.len() {
                assert(front.take(i) =~= calls.take(i));
            }
        }
        assert forall|i: int| 0 <= i < calls.len() implies plain_answer(
            plain_run(calls.take(i)),
            #[trigger] calls[i],
        ) == sharded_answer(sharded_run(calls.take(i), n), calls[i]) by {
            if i < front.len() {
                assert(front.take(i) =~= calls.take(i));
                assert(front[i] == calls[i]);
            }
        }
    }
}

/// What either kind of store does with a call to add a session is what was said of it: a plain
/// store as one store does, and a store in shards as shards do.
pub proof fn law_stores_add_alike(
    plain: &mut SessionStore,
    sharded: &mut ShardedSessionStore,
    session: Session,
    a: Result<(), SessionStoreError>,
    b: Result<(), SessionStoreError>,
)
    requires
        old(sharded)@.len() > 0,
        call_ensures(SessionStore::add, (plain, session), a),
        call_ensures(ShardedSessionStore::add, (sharded, session), b),
    ensures
        (a is Err) == plain_answer(old(plain)@, StoreCall::Add(session)).0,
        final(plain)@ == plain_after(old(plain)@, StoreCall::Add(session)),
        (b is Err) == sharded_answer(old(sharded)@, StoreCall::Add(session)).0,
        final(sharded)@ == sharded_after(old(sharded)@, StoreCall::Add(session)),
{
}

/// What either kind of store does with a call to replace a session is what was said of it.
pub proof fn law_stores_replace_alike(
    plain: &mut SessionStore,
    sharded: &mut ShardedSessionStore,
    session: Session,
)
    requires
        old(sharded)@.len() > 0,
        call_ensures(SessionStore::add_or_replace, (plain, session), ()),
        call_ensures(ShardedSessionStore::add_or_replace, (sharded, session), ()),
    ensures
        final(plain)@ == plain_after(old(plain)@, StoreCall::AddOrReplace(session)),
        final(sharded)@ == sharded_after(old(sharded)@, StoreCall::AddOrReplace(session)),
{
}

/// What either kind of store does with a call to remove a session is what was said of it.
pub proof fn law_stores_remove_alike(
    plain: &mut SessionStore,
    sharded: &mut ShardedSessionStore,
    id: &u128,
    a: Option<Session>,
    b: Option<Session>,
)
    requires
        call_ensures(SessionStore::remove, (plain, id), a),
        call_ensures(ShardedSessionStore::remove, (sharded, id), b),
    ensures
        a == plain_answer(old(plain)@, StoreCall::Remove(*id)).1,
        final(plain)@ == plain_after(old(plain)@, StoreCall::Remove(*id)),
        b == sharded_answer(old(sharded)@, StoreCall::Remove(*id)).1,
        final(sharded)@ == sharded_after(old(sharded)@, StoreCall::Remove(*id)),
{
}

/// A session that was added to shards is found by its tunnel id, and by its id where no shard had
/// that before; every session that a different tunnel id led to before is still found, unless it
/// had the same id.
pub proof fn law_shards_find_what_was_added(
    store: &mut ShardedSessionStore,
    session: Session,
    r: Result<(), SessionStoreError>,
    t: &str,
    by_tunnel: Option<dashmap::mapref::one::Ref<'_, u128, Session>>,
    id: &u128,
    by_id: Option<dashmap::mapref::one::Ref<'_, u128, Session>>,
    before: Option<dashmap::mapref::one::Ref<'_, u128, Session>>,
)
    requires
        old(store)@.len() > 0,
        call_ensures(ShardedSessionStore::add, (store, session), r),
        call_ensures(ShardedSessionStore::get_by_tunnel_id, (&*final(store), t), by_tunnel),
        call_ensures(ShardedSessionStore::get_by_tunnel_id, (&*old(store), t), before),
        *id == session.id,
        call_ensures(ShardedSessionStore::get, (&*final(store), id), by_id),
    ensures
        r is Ok && t@ == session.tunnel_id@ ==> by_tunnel is Some && session_at(by_tunnel->0)
            == session,
        r is Ok && (forall|k: int|
            0 <= k < old(store)@.len() ==> !(#[trigger] old(store)@[k]).sessions.contains_key(*id))
            ==> by_id is Some && session_at(by_id->0) == session,
        t@ != session.tunnel_id@ && before is Some && (forall|k: int|
            0 <= k < old(store)@.len() ==> !(#[trigger] old(store)@[k]).sessions.contains_key(*id))
            ==> by_tunnel is Some && session_at(by_tunnel->0) == session_at(before->0),
        r is Err ==> final(store)@ == old(store)@,
{
    let k = shard_of(session.tunnel_id@, old(store)@.len());
    assert(0 <= k < old(store)@.len());
    let j = shard_of(t@, old(store)@.len());
    assert(0 <= j < old(store)@.len());
    lemma_holder(final(store)@, *id, 0);
    if r is Ok {
        assert(final(store)@[k].sessions.contains_key(*id));
    }
}

/// A sign of life of a session that some shard holds moves the time of its last heartbeat there.
pub proof fn law_sharded_heartbeat_moves_its_time(
    store: &mut ShardedSessionStore,
    id: &u128,
    now: u128,
    r: bool,
    before: Option<dashmap::mapref::one::Ref<'_, u128, Session>>,
    after: Option<dashmap::mapref::one::Ref<'_, u128, Session>>,
)
    requires
        call_ensures(ShardedSessionStore::update_heartbeat, (store, id, now), r),
        call_ensures(ShardedSessionStore::get, (&*old(store), id), before),
        call_ensures(ShardedSessionStore::get, (&*final(store), id), after),
    ensures
        r <==> before is Some,
        r <==> after is Some,
        r ==> session_at(after->0) == (Session {
            last_heartbeat: now,
            ..session_at(before->0)
        }),
{
    if r {
        lemma_holder(old(store)@, *id, 0);
        lemma_holder_stays(
            old(store)@,
            final(store)@,
            *id,
            0,
            holder(old(store)@, *id, 0)->0,
        );
    }
}

/// Either backend answers as the store that it is.
pub proof fn law_backend_answers_as_its_store(
    plain: &SessionStore,
    sharded: &ShardedSessionStore,
    over_plain: &SessionStoreBackend,
    over_sharded: &SessionStoreBackend,
    t: &str,
    a: Option<dashmap::mapref::one::Ref<'_, u128, Session>>,
    b: Option<dashmap::mapref::one::Ref<'_, u128, Session>>,
    c: Option<Option<u64>>,
    d: Option<Option<u64>>,
)
    requires
        sharded@.len() > 0,
        *over_plain == SessionStoreBackend::Default(*plain),
        *over_sharded == SessionStoreBackend::Sharded(*sharded),
        call_ensures(SessionStore::get_by_tunnel_id, (plain, t), a),
        call_ensures(ShardedSessionStore::get_by_tunnel_id, (sharded, t), b),
        call_ensures(SessionStoreBackend::multiplexer_of, (over_plain, t), c),
        call_ensures(SessionStoreBackend::multiplexer_of, (over_sharded, t), d),
    ensures
        c == (match a {
            Some(entry) => Some(session_at(entry).multiplexer),
            None => None,
        }),
        d == (match b {
            Some(entry) => Some(session_at(entry).multiplexer),
            None => None,
        }),
{
}

/// Through either backend, a session that was added, or that replaced another, is reached by its
/// tunnel id.
pub proof fn law_backend_reaches_added_sessions(
    store: &mut SessionStoreBackend,
    session: Session,
    r: Result<(), SessionStoreError>,
    t: &str,
    found: Option<Option<u64>>,
    replacing: &mut SessionStoreBackend,
    replaced_found: Option<Option<u64>>,
)
    requires
        old(store).wf(),
        old(replacing).wf(),
        t@ == session.tunnel_id@,
        call_ensures(SessionStoreBackend::add, (store, session), r),
        call_ensures(SessionStoreBackend::multiplexer_of, (&*final(store), t), found),
        call_ensures(SessionStoreBackend::add_or_replace, (replacing, session), ()),
        call_ensures(SessionStoreBackend::multiplexer_of, (&*final(replacing), t), replaced_found),
    ensures
        r is Ok ==> found == Some(session.multiplexer),
        replaced_found == Some(session.multiplexer),
{
    if let SessionStoreBackend::Sharded(s) = *old(store) {
        assert(0 <= shard_of(t@, s@.len()) < s@.len());
    }
    if let SessionStoreBackend::Sharded(s) = *old(replacing) {
        assert(0 <= shard_of(t@, s@.len()) < s@.len());
    }
}

/// Through either backend, some multiplexer that serves a capability is found wherever a session
/// that offers it has one.
pub proof fn law_backend_finds_a_capable_session(
    store: &SessionStoreBackend,
    capability: &str,
    r: Option<u64>,
    k: int,
    id: u128,
    i: int,
)
    requires
        call_ensures(SessionStoreBackend::find_multiplexer_with_capability, (store, capability), r),
    ensures
        store matches SessionStoreBackend::Default(s) ==> s@.sessions.contains_key(id)
            && s@.sessions[id].multiplexer is Some && 0 <= i < s@.sessions[id].capabilities@.len()
            && s@.sessions[id].capabilities@[i]@ == capability@ ==> r is Some,
        store matches SessionStoreBackend::Sharded(s) ==> 0 <= k < s@.len()
            && s@[k].sessions.contains_key(id) && s@[k].sessions[id].multiplexer is Some && 0 <= i
            < s@[k].sessions[id].capabilities@.len() && s@[k].sessions[id].capabilities@[i]@
            == capability@ ==> r is Some,
{
    if let SessionStoreBackend::Default(s) = store {
        if s@.sessions.contains_key(id) && s@.sessions[id].multiplexer is Some && 0 <= i
            < s@.sessions[id].capabilities@.len() && s@.sessions[id].capabilities@[i]@
            == capability@ {
            assert(s@.sessions[id].offers(capability@));
            assert(capable_multiplexer(s@, capability@));
        }
    }
    if let SessionStoreBackend::Sharded(s) = store {
        if 0 <= k < s@.len() && s@[k].sessions.contains_key(id) && s@[k].sessions[id].multiplexer
            is Some && 0 <= i < s@[k].sessions[id].capabilities@.len()
            && s@[k].sessions[id].capabilities@[i]@ == capability@ {
            assert(s@[k].sessions[id].offers(capability@));
            assert(capable_multiplexer(s@[k], capability@));
        }
    }
}

/// Cleaning up shards of which no two hold the same id takes out of each exactly the sessions of
/// which nothing was heard for longer than the timeout.
pub proof fn law_sharded_cleanup_takes_out_the_silent(
    store: &mut ShardedSessionStore,
    now: u128,
    timeout: u128,
    k: int,
    id: u128,
    r: usize,
)
    requires
        call_ensures(ShardedSessionStore::cleanup_stale_sessions, (store, now, timeout), r),
        0 <= k < old(store)@.len(),
        forall|a: int, b: int, x: u128|
            0 <= a < old(store)@.len() && 0 <= b < old(store)@.len()
                && #[trigger] old(store)@[a].sessions.contains_key(x)
                && #[trigger] old(store)@[b].sessions.contains_key(x) ==> a == b,
    ensures
        final(store)@.len() == old(store)@.len(),
        final(store)@[k].sessions.contains_key(id) <==> old(store)@[k].sessions.contains_key(id)
            && now - old(store)@[k].sessions[id].last_heartbeat <= timeout,
        final(store)@[k].sessions.contains_key(id) ==> final(store)@[k].sessions[id]
            == old(store)@[k].sessions[id],
{
    assert(unshared(old(store)@));
}

/// Either backend gets, removes, counts and hears of sessions as the store that it is.
pub proof fn law_backend_acts_as_its_store(
    plain: &mut SessionStore,
    backend: &mut SessionStoreBackend,
    id: &u128,
    a: Option<Session>,
    b: Option<Session>,
    heard: &mut SessionStore,
    backend_heard: &mut SessionStoreBackend,
    now: u128,
    c: bool,
    d: bool,
    clean: &mut SessionStore,
    backend_clean: &mut SessionStoreBackend,
    timeout: u128,
    e: usize,
    f: usize,
)
    requires
        *old(backend) == SessionStoreBackend::Default(*old(plain)),
        call_ensures(SessionStore::remove, (plain, id), a),
        call_ensures(SessionStoreBackend::remove, (backend, id), b),
        *old(backend_heard) == SessionStoreBackend::Default(*old(heard)),
        call_ensures(SessionStore::update_heartbeat, (heard, id, now), c),
        call_ensures(SessionStoreBackend::update_heartbeat, (backend_heard, id, now), d),
        *old(backend_clean) == SessionStoreBackend::Default(*old(clean)),
        call_ensures(SessionStore::cleanup_stale_sessions, (clean, now, timeout), e),
        call_ensures(SessionStoreBackend::cleanup_stale_sessions, (backend_clean, now, timeout), f),
    ensures
        a == b,
        *final(backend) matches SessionStoreBackend::Default(s) && s@ == final(plain)@,
        c == d,
        *final(backend_heard) matches SessionStoreBackend::Default(s) && s@ == final(heard)@,
        e == f,
        *final(backend_clean) matches SessionStoreBackend::Default(s) && s@ == final(clean)@,
{
}

/// A backend in shards gets, removes and hears of sessions as the shards do.
pub proof fn law_sharded_backend_acts_as_its_shards(
    sharded: &mut ShardedSessionStore,
    backend: &mut SessionStoreBackend,
    id: &u128,
    a: Option<Session>,
    b: Option<Session>,
    heard: &mut ShardedSessionStore,
    backend_heard: &mut SessionStoreBackend,
    now: u128,
    c: bool,
    d: bool,
)
    requires
        *old(backend) == SessionStoreBackend::Sharded(*old(sharded)),
        call_ensures(ShardedSessionStore::remove, (sharded, id), a),
        call_ensures(SessionStoreBackend::remove, (backend, id), b),
        *old(backend_heard) == SessionStoreBackend::Sharded(*old(heard)),
        call_ensures(ShardedSessionStore::update_heartbeat, (heard, id, now), c),
        call_ensures(SessionStoreBackend::update_heartbeat, (backend_heard, id, now), d),
    ensures
        a == b,
        *final(backend) matches SessionStoreBackend::Sharded(s) && s@ == final(sharded)@,
        c == d,
        *final(backend_heard) matches SessionStoreBackend::Sharded(s) && s@ == final(heard)@,
{
}

/// New shards hold nothing, as many as were asked for and sixteen by default; the count over shards
/// is the sum of their counts; and a tunnel id falls into one of the shards, always the same.
pub proof fn law_shards_are_as_many_as_asked_for(
    n: usize,
    store: ShardedSessionStore,
    usual: ShardedSessionStore,
    t: &str,
    u: &str,
    a: usize,
    b: usize,
    k: int,
)
    requires
        call_ensures(ShardedSessionStore::with_shards, (n,), store),
        call_ensures(ShardedSessionStore::new, (), usual),
        n > 0,
        t@ == u@,
        call_ensures(shard_index, (t, n), a),
        call_ensures(shard_index, (u, n), b),
        0 <= k < n,
    ensures
        store@.len() == n,
        store@[k].sessions == Map::<u128, Session>::empty(),
        store@[k].index == Map::<Seq<char>, u128>::empty(),
        usual@.len() == 16,
        a == b,
        a < n,
{
}

/// The limiter of a session is that of the session with its id, and the count of a backend that of
/// its store.
pub proof fn law_backend_counts_and_limits(
    backend: &SessionStoreBackend,
    plain: &SessionStore,
    id: &u128,
    entry: Option<dashmap::mapref::one::Ref<'_, u128, Session>>,
    limiter: Option<SessionRateLimiter>,
    count: usize,
    plain_count: usize,
)
    requires
        call_ensures(SessionStoreBackend::get, (backend, id), entry),
        call_ensures(SessionStoreBackend::rate_limiter, (backend, id), limiter),
        *backend == SessionStoreBackend::Default(*plain),
        call_ensures(SessionStoreBackend::count, (backend,), count),
        call_ensures(SessionStore::count, (plain,), plain_count),
    ensures
        entry is None ==> limiter is None,
        entry is Some ==> limiter == session_at(entry->0).rate_limiter,
        count == plain_count,
{
}

/// Sessions can be added, replaced, looked up, removed and cleaned up in every store, where there is
/// a shard for them.
pub proof fn law_any_session_can_be_kept(
    store: &mut SessionStoreBackend,
    plain: &mut SessionStore,
    session: Session,
    id: &u128,
    tunnel_id: &str,
    now: u128,
    timeout: u128,
)
    ensures
        call_requires(SessionStore::add, (plain, session)),
        call_requires(SessionStore::add_or_replace, (plain, session)),
        call_requires(SessionStore::remove, (plain, id)),
        call_requires(SessionStore::cleanup_stale_sessions, (plain, now, timeout)),
        call_requires(SessionStoreBackend::remove, (store, id)),
        call_requires(SessionStoreBackend::cleanup_stale_sessions, (store, now, timeout)),
        (*old(store) is Default || old(store)->Sharded_0@.len() > 0) ==> call_requires(
            SessionStoreBackend::add,
            (store, session),
        ) && call_requires(SessionStoreBackend::multiplexer_of, (&*old(store), tunnel_id)),
{
}

} // verus!
