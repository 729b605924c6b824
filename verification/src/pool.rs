//! Connection pooling for HTTP/1.1 and HTTP/2 client connections.
//!
//! Idle HTTP/1.1 connections are reused, the last returned first; HTTP/2 uses one connection
//! for all requests. A connection is known here by a handle; whether it is closed or ready is
//! told by whoever owns it. Moments and durations are counted in nanoseconds.

use vstd::prelude::*;

verus! {

/// Connection pool configuration.
#[derive(Debug, Clone, Copy, PartialEq, Eq, Structural)]
pub struct PoolConfig {
    /// Maximum idle connections per host.
    pub max_idle_per_host: usize,
    /// Idle timeout for connections, in nanoseconds.
    pub idle_timeout: u128,
    /// Prefer HTTP/2 when available.
    pub prefer_h2: bool,
}

impl Default for PoolConfig {
    fn default() -> (r: PoolConfig)
        ensures
            r == (PoolConfig { max_idle_per_host: 32, idle_timeout: 90_000_000_000, prefer_h2: false }),
    {
        PoolConfig { max_idle_per_host: 32, idle_timeout: 90_000_000_000, prefer_h2: false }
    }
}

/// Connection pool errors.
#[derive(Debug, Clone, PartialEq, Eq)]
pub enum ConnectionPoolError {
    Connection(String),
    Handshake(String),
    PoolFull,
    NoConnection,
}

impl ConnectionPoolError {
    /// The error as a message.
    pub open spec fn text(self) -> Seq<char> {
        match self {
            ConnectionPoolError::Connection(m) => "Connection error: "@ + m@,
            ConnectionPoolError::Handshake(m) => "Handshake error: "@ + m@,
            ConnectionPoolError::PoolFull => "Pool is full"@,
            ConnectionPoolError::NoConnection => "No available connection"@,
        }
    }

    /// The error as a message.
    pub fn message(&self) -> (r: String)
        ensures
            r@ == self.text(),
    {
        match self {
            ConnectionPoolError::Connection(m) => {
                let mut text = "Connection error: ".to_owned();
                text.append(m.as_str());
                text
            },
            ConnectionPoolError::Handshake(m) => {
                let mut text = "Handshake error: ".to_owned();
                text.append(m.as_str());
                text
            },
            ConnectionPoolError::PoolFull => "Pool is full".to_owned(),
            ConnectionPoolError::NoConnection => "No available connection".to_owned(),
        }
    }
}

/// An idle HTTP/1.1 connection.
#[derive(Debug, Clone, Copy, PartialEq, Eq, Structural)]
pub struct PooledConnection {
    pub handle: u64,
    /// When it was last used.
    pub last_used: u128,
}

/// How long a connection has not been used at the moment `now`.
pub open spec fn idle_time(connection: PooledConnection, now: u128) -> nat {
    if now > connection.last_used {
        (now - connection.last_used) as nat
    } else {
        0
    }
}

/// Whether a connection can be used at the moment `now`: open, and not idle for too long.
pub open spec fn usable(
    connection: PooledConnection,
    closed: Seq<u64>,
    now: u128,
    timeout: nat,
) -> bool {
    !closed.contains(connection.handle) && idle_time(connection, now) < timeout
}

/// The place of the last connection, before `end`, that can be used.
pub open spec fn last_usable(
    pool: Seq<PooledConnection>,
    closed: Seq<u64>,
    now: u128,
    timeout: nat,
    end: int,
) -> Option<int>
    decreases end,
{
    if end <= 0 || end > pool.len() {
        None
    } else if usable(pool[end - 1], closed, now, timeout) {
        Some(end - 1)
    } else {
        last_usable(pool, closed, now, timeout, end - 1)
    }
}

fn is_listed(list: &Vec<u64>, handle: u64) -> (r: bool)
    ensures
        r == list@.contains(handle),
{
    let mut i: usize = 0;
    while i < list.len()
        invariant
            i <= list@.len(),
            forall|j: int| 0 <= j < i ==> list@[j] != handle,
        decreases list@.len() - i,
    {
        if list[i] == handle {
            return true;
        }
        i += 1;
    }
    false
}

fn is_usable(connection: &PooledConnection, closed: &Vec<u64>, now: u128, timeout: u128) -> (r: bool)
    ensures
        r == usable(*connection, closed@, now, timeout as nat),
{
    let idle: u128 = if now > connection.last_used {
        now - connection.last_used
    } else {
        0
    };
    idle < timeout && !is_listed(closed, connection.handle)
}

/// A pool of connections to one target.
pub struct ConnectionPool {
    pub target_addr: String,
    pub config: PoolConfig,
    pub h1_pool: Vec<PooledConnection>,
    pub h2_connection: Option<u64>,
}

impl ConnectionPool {
    /// The idle HTTP/1.1 connections, the last returned at the end.
    pub open spec fn idle(&self) -> Seq<PooledConnection> {
        self.h1_pool@
    }

    /// The HTTP/2 connection.
    pub open spec fn shared(&self) -> Option<u64> {
        self.h2_connection
    }

    /// The idle timeout.
    pub open spec fn timeout(&self) -> nat {
        self.config.idle_timeout as nat
    }

    fn timeout_nanos(&self) -> (r: u128)
        ensures
            r == self.timeout(),
    {
        self.config.idle_timeout
    }

    /// Creates an empty pool.
    pub fn new(target_addr: String, config: PoolConfig) -> (r: ConnectionPool)
        ensures
            r.target_addr == target_addr,
            r.config == config,
            r.idle().len() == 0,
            r.shared() is None,
    {
        ConnectionPool { target_addr, config, h1_pool: Vec::new(), h2_connection: None }
    }

    /// Takes the last returned connection that can be used out of the pool; those returned
    /// after it are dropped. `None` where none can be used and a new one is to be made.
    pub fn acquire_h1(&mut self, now: u128, closed: &Vec<u64>) -> (r: Option<u64>)
        ensures
            match last_usable(
                old(self).idle(),
                closed@,
                now,
                old(self).timeout(),
                old(self).idle().len() as int,
            ) {
                Some(i) => 0 <= i < old(self).idle().len() && r == Some(
                    old(self).idle()[i].handle,
                ) && final(self).idle() == old(self).idle().take(i),
                None => r is None && final(self).idle().len() == 0,
            },
            final(self).shared() == old(self).shared(),
            final(self).config == old(self).config,
            final(self).target_addr == old(self).target_addr,
    {
        let ghost all = self.idle();
        let timeout: u128 = self.timeout_nanos();
        loop
            invariant
                timeout == old(self).timeout(),
                all == old(self).idle(),
                self.h1_pool@.len() <= all.len(),
                self.h1_pool@ == all.take(self.h1_pool@.len() as int),
                last_usable(all, closed@, now, timeout as nat, all.len() as int) == last_usable(
                    all,
                    closed@,
                    now,
                    timeout as nat,
                    self.h1_pool@.len() as int,
                ),
                self.shared() == old(self).shared(),
                self.config == old(self).config,
                self.target_addr == old(self).target_addr,
            decreases self.h1_pool@.len(),
        {
            let ghost n = self.h1_pool@.len() as int;
            match self.h1_pool.pop() {
                Some(connection) => {
                    proof {
                        assert(connection == all[n - 1]);
                        assert(self.h1_pool@ =~= all.take(n - 1));
                    }
                    if is_usable(&connection, closed, now, timeout) {
                        return Some(connection.handle);
                    }
                },
                None => {
                    return None;
                },
            }
        }
    }

    /// Returns a connection to the pool, unless it is closed or the pool is full.
    pub fn release_h1(&mut self, handle: u64, is_closed: bool, now: u128)
        ensures
            final(self).idle() == (if is_closed || old(self).idle().len() >= old(self).config.max_idle_per_host {
                old(self).idle()
            } else {
                old(self).idle().push(PooledConnection { handle, last_used: now })
            }),
            final(self).shared() == old(self).shared(),
            final(self).config == old(self).config,
            final(self).target_addr == old(self).target_addr,
    {
        if is_closed || self.h1_pool.len() >= self.config.max_idle_per_host {
            return;
        }
        self.h1_pool.push(PooledConnection { handle, last_used: now });
    }

    /// The HTTP/2 connection, where there is one and it is ready.
    pub fn cached_h2(&self, ready: bool) -> (r: Option<u64>)
        ensures
            r == (if ready {
                self.shared()
            } else {
                None
            }),
    {
        if ready {
            self.h2_connection
        } else {
            None
        }
    }

    /// Offers a new HTTP/2 connection. Where another was made meanwhile and is ready, that one
    /// stays and is used; otherwise the new one takes its place.
    pub fn store_h2(&mut self, handle: u64, existing_ready: bool) -> (r: u64)
        ensures
            r == (match old(self).shared() {
                Some(existing) => if existing_ready {
                    existing
                } else {
                    handle
                },
                None => handle,
            }),
            final(self).shared() == Some(r),
            final(self).idle() == old(self).idle(),
            final(self).config == old(self).config,
            final(self).target_addr == old(self).target_addr,
    {
        if let Some(existing) = self.h2_connection {
            if existing_ready {
                return existing;
            }
        }
        self.h2_connection = Some(handle);
        handle
    }

    /// Drops idle connections that cannot be used any more.
    pub fn evict_expired(&mut self, now: u128, closed: &Vec<u64>)
        ensures
            final(self).idle() == kept(old(self).idle(), closed@, now, old(self).timeout()),
            final(self).shared() == old(self).shared(),
            final(self).config == old(self).config,
            final(self).target_addr == old(self).target_addr,
    {
        let ghost all = self.idle();
        let timeout: u128 = self.timeout_nanos();
        let mut left: Vec<PooledConnection> = Vec::new();
        let mut i: usize = 0;
        proof {
            reveal(Seq::filter);
            assert(all.take(0) =~= Seq::empty());
            assert(left@ =~= kept(all.take(0), closed@, now, timeout as nat));
        }
        while i < self.h1_pool.len()
            invariant
                i <= self.h1_pool@.len(),
                self.h1_pool@ == all,
                left@ == kept(all.take(i as int), closed@, now, timeout as nat),
            decreases self.h1_pool@.len() - i,
        {
            let connection = self.h1_pool[i];
            proof {
                reveal(Seq::filter);
                assert(all.take(i + 1).drop_last() =~= all.take(i as int));
                assert(all.take(i + 1).last() == connection);
            }
            if is_usable(&connection, closed, now, timeout) {
                left.push(connection);
            }
            i += 1;
        }
        proof {
            assert(all.take(i as int) =~= all);
        }
        self.h1_pool = left;
    }
}

/// The connections that can be used at the moment `now`, in order.
pub open spec fn kept(
    pool: Seq<PooledConnection>,
    closed: Seq<u64>,
    now: u128,
    timeout: nat,
) -> Seq<PooledConnection> {
    pool.filter(|c: PooledConnection| usable(c, closed, now, timeout))
}

/// The idle connections after a connection was returned.
pub open spec fn after_release(
    idle: Seq<PooledConnection>,
    handle: u64,
    is_closed: bool,
    now: u128,
    max_idle: nat,
) -> Seq<PooledConnection> {
    if is_closed || idle.len() >= max_idle {
        idle
    } else {
        idle.push(PooledConnection { handle, last_used: now })
    }
}

/// A pool never holds more idle connections than it may.
pub proof fn law_pool_stays_within_its_bound(
    idle: Seq<PooledConnection>,
    handle: u64,
    is_closed: bool,
    now: u128,
    max_idle: nat,
)
    requires
        idle.len() <= max_idle,
    ensures
        after_release(idle, handle, is_closed, now, max_idle).len() <= max_idle,
{
}

/// A connection that was just returned, open, to a pool with room is the one that is handed
/// out next.
pub proof fn law_last_returned_is_reused_first(
    idle: Seq<PooledConnection>,
    handle: u64,
    closed: Seq<u64>,
    now: u128,
    timeout: nat,
    max_idle: nat,
)
    requires
        idle.len() < max_idle,
        !closed.contains(handle),
        timeout > 0,
    ensures
        ({
            let after = after_release(idle, handle, false, now, max_idle);
            last_usable(after, closed, now, timeout, after.len() as int) == Some(idle.len() as int)
        }),
{
    let after = after_release(idle, handle, false, now, max_idle);
    assert(after[after.len() - 1] == (PooledConnection { handle, last_used: now }));
}

/// The connection that is reused is the one returned last of those that are open and were used
/// within the timeout; where there is none, none is reused. What was returned before it stays.
pub proof fn law_reused_connection_is_open_and_fresh(
    pool: &mut ConnectionPool,
    now: u128,
    closed: &Vec<u64>,
    r: Option<u64>,
    i: int,
)
    requires
        call_ensures(ConnectionPool::acquire_h1, (pool, now, closed), r),
        0 <= i < old(pool).h1_pool@.len(),
        !closed@.contains(old(pool).h1_pool@[i].handle),
        now < old(pool).h1_pool@[i].last_used + old(pool).config.idle_timeout,
        old(pool).config.idle_timeout > 0,
        forall|j: int|
            i < j < old(pool).h1_pool@.len() ==> closed@.contains(
                (#[trigger] old(pool).h1_pool@[j]).handle,
            ) || now >= old(pool).h1_pool@[j].last_used + old(pool).config.idle_timeout,
    ensures
        r == Some(old(pool).h1_pool@[i].handle),
        final(pool).h1_pool@ == old(pool).h1_pool@.take(i),
{
    lemma_last_usable(
        old(pool).idle(),
        closed@,
        now,
        old(pool).timeout(),
        old(pool).idle().len() as int,
        i,
    );
}

proof fn lemma_last_usable(
    pool: Seq<PooledConnection>,
    closed: Seq<u64>,
    now: u128,
    timeout: nat,
    end: int,
    i: int,
)
    requires
        0 <= i < end <= pool.len(),
        usable(pool[i], closed, now, timeout),
        forall|j: int| i < j < end ==> !usable(#[trigger] pool[j], closed, now, timeout),
    ensures
        last_usable(pool, closed, now, timeout, end) == Some(i),
    decreases end,
{
    if i < end - 1 {
        assert(!usable(pool[end - 1], closed, now, timeout));
        lemma_last_usable(pool, closed, now, timeout, end - 1, i);
    }
}

proof fn lemma_none_usable(
    pool: Seq<PooledConnection>,
    closed: Seq<u64>,
    now: u128,
    timeout: nat,
    end: int,
)
    requires
        end <= pool.len(),
        forall|j: int| 0 <= j < end ==> !usable(#[trigger] pool[j], closed, now, timeout),
    ensures
        last_usable(pool, closed, now, timeout, end) is None,
    decreases end,
{
    if end > 0 {
        assert(!usable(pool[end - 1], closed, now, timeout));
        lemma_none_usable(pool, closed, now, timeout, end - 1);
    }
}

/// Where every idle connection is closed or was not used within the timeout, none is reused, and
/// none stays.
pub proof fn law_stale_connections_are_not_reused(
    pool: &mut ConnectionPool,
    now: u128,
    closed: &Vec<u64>,
    r: Option<u64>,
)
    requires
        call_ensures(ConnectionPool::acquire_h1, (pool, now, closed), r),
        forall|j: int|
            0 <= j < old(pool).h1_pool@.len() ==> closed@.contains(
                (#[trigger] old(pool).h1_pool@[j]).handle,
            ) || now >= old(pool).h1_pool@[j].last_used + old(pool).config.idle_timeout,
    ensures
        r is None,
        final(pool).h1_pool@.len() == 0,
{
    lemma_none_usable(
        old(pool).idle(),
        closed@,
        now,
        old(pool).timeout(),
        old(pool).idle().len() as int,
    );
}

/// A connection that is returned open to a pool with room is kept behind the others, with the moment
/// of its return; one that is closed, or that there is no room for, is not.
pub proof fn law_returned_connection_is_kept(
    pool: &mut ConnectionPool,
    handle: u64,
    is_closed: bool,
    now: u128,
)
    requires
        call_ensures(ConnectionPool::release_h1, (pool, handle, is_closed, now), ()),
    ensures
        !is_closed && old(pool).h1_pool@.len() < old(pool).config.max_idle_per_host ==> {
            &&& final(pool).h1_pool@.len() == old(pool).h1_pool@.len() + 1
            &&& final(pool).h1_pool@.drop_last() == old(pool).h1_pool@
            &&& final(pool).h1_pool@.last().handle == handle
            &&& final(pool).h1_pool@.last().last_used == now
        },
        is_closed || old(pool).h1_pool@.len() >= old(pool).config.max_idle_per_host
            ==> final(pool).h1_pool@ == old(pool).h1_pool@,
        final(pool).h2_connection == old(pool).h2_connection,
{
    if !is_closed && old(pool).h1_pool@.len() < old(pool).config.max_idle_per_host {
        assert(final(pool).h1_pool@.drop_last() =~= old(pool).h1_pool@);
    }
}

/// One connection over HTTP/2 serves all: it is used as long as it is ready, a second one that was
/// made meanwhile does not replace it, and one that is no longer ready is replaced.
pub proof fn law_one_connection_serves_all(
    pool: &mut ConnectionPool,
    handle: u64,
    ready: bool,
    used: u64,
    cached: Option<u64>,
    still_ready: bool,
    again: Option<u64>,
)
    requires
        call_ensures(ConnectionPool::cached_h2, (&*old(pool), ready), cached),
        call_ensures(ConnectionPool::store_h2, (pool, handle, ready), used),
        call_ensures(ConnectionPool::cached_h2, (&*final(pool), still_ready), again),
    ensures
        cached is Some ==> used == cached->0,
        cached is None ==> used == handle,
        still_ready ==> again == Some(used),
        !still_ready ==> again is None,
        ready ==> cached == old(pool).h2_connection,
        final(pool).h1_pool@ == old(pool).h1_pool@,
{
}

/// Eviction keeps every idle connection that is open and was used within the timeout, and no other.
pub proof fn law_eviction_keeps_what_can_be_used(
    pool: &mut ConnectionPool,
    now: u128,
    closed: &Vec<u64>,
    c: PooledConnection,
)
    requires
        call_ensures(ConnectionPool::evict_expired, (pool, now, closed), ()),
        old(pool).config.idle_timeout > 0,
    ensures
        final(pool).h1_pool@.contains(c) <==> old(pool).h1_pool@.contains(c) && !closed@.contains(
            c.handle,
        ) && now < c.last_used + old(pool).config.idle_timeout,
        final(pool).h1_pool@.len() <= old(pool).h1_pool@.len(),
        final(pool).h2_connection == old(pool).h2_connection,
{
    broadcast use vstd::seq_lib::group_filter_ensures;
    broadcast use vstd::seq::Seq::lemma_filter_contains_rev;

    let idle = old(pool).idle();
    let timeout = old(pool).timeout();
    let left = kept(idle, closed@, now, timeout);
    if left.contains(c) {
        let k = choose|k: int| 0 <= k < left.len() && left[k] == c;
        assert(usable(left[k], closed@, now, timeout));
    }
    if idle.contains(c) && usable(c, closed@, now, timeout) {
        let k = choose|k: int| 0 <= k < idle.len() && idle[k] == c;
        assert(left.contains(idle[k]));
    }
}

/// A new pool is empty, for the target and with the settings that it was given, by default for 32
/// idle connections and 90 seconds.
pub proof fn law_new_pool_is_empty(
    target: String,
    config: PoolConfig,
    pool: ConnectionPool,
    usual: PoolConfig,
)
    requires
        call_ensures(ConnectionPool::new, (target, config), pool),
        call_ensures(PoolConfig::default, (), usual),
    ensures
        pool.target_addr@ == target@,
        pool.config == config,
        pool.h1_pool@.len() == 0,
        pool.h2_connection is None,
        usual.max_idle_per_host == 32,
        usual.idle_timeout == 90 * 1_000_000_000,
        !usual.prefer_h2,
{
}

/// Pool errors are told in words with their cause.
pub proof fn law_pool_errors_are_told(error: &ConnectionPoolError, r: String)
    requires
        call_ensures(ConnectionPoolError::message, (error,), r),
    ensures
        *error matches ConnectionPoolError::Connection(m) ==> r@ == "Connection error: "@ + m@,
        *error matches ConnectionPoolError::Handshake(m) ==> r@ == "Handshake error: "@ + m@,
        *error is PoolFull ==> r@ == "Pool is full"@,
        *error is NoConnection ==> r@ == "No available connection"@,
{
}

} // verus!
