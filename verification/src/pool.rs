//! The client's pool of connections: the idle ones, oldest first, and the
//! count of all that the pool owns, idle or out on loan. The pool decides;
//! its owner makes, probes and closes the connections.

use crate::client::{ClientError, ConnectionConfig};
use vstd::prelude::*;

verus! {

/// A connection at rest in the pool, with the time at which it came to rest,
/// in milliseconds of the owner's clock.
#[derive(Debug)]
pub struct PooledConnection<T> {
    pub connection: T,
    pub idle_since: u64,
}

/// What a checkout tells its caller to do.
#[derive(Debug)]
pub enum Checkout<T> {
    /// Make a new connection, and record it once it is made.
    Create,
    /// Use this connection, which was idle.
    Reuse(T),
    /// Pause briefly and ask again.
    Wait,
    /// Give up: the wait has gone over the connection timeout.
    TimedOut,
}

/// Whether the probe of the idle connection at `index` failed.
pub open spec fn flagged(unreachable: Seq<bool>, index: int) -> bool {
    0 <= index < unreachable.len() && unreachable[index]
}

/// Whether a connection idle since `idle_since` has at `now` lain idle for
/// longer than `idle_timeout`.
pub open spec fn expired(idle_since: u64, now: u64, idle_timeout: u64) -> bool {
    now - idle_since > idle_timeout
}

/// The idle connections that an eviction leaves, in their order: those whose
/// probe did not fail and that have not lain idle for too long.
pub open spec fn survivors<T>(
    idle: Seq<PooledConnection<T>>,
    unreachable: Seq<bool>,
    now: u64,
    idle_timeout: u64,
) -> Seq<PooledConnection<T>>
    decreases idle.len(),
{
    if idle.len() == 0 {
        Seq::empty()
    } else {
        let last = idle.len() - 1;
        let before = survivors(idle.drop_last(), unreachable, now, idle_timeout);
        if flagged(unreachable, last) || expired(idle[last].idle_since, now, idle_timeout) {
            before
        } else {
            before.push(idle[last])
        }
    }
}

/// One pass of a checkout on a pool with `idle` at rest and `size`
/// connections in all: the idle list and the size afterwards, and what the
/// caller is told. With nothing idle and room left, the caller makes a
/// connection. Otherwise the dead and the stale are evicted, and the oldest
/// of the rest is handed out; with none left the caller waits, until it has
/// waited too long.
pub open spec fn checkout_of<T>(
    idle: Seq<PooledConnection<T>>,
    size: nat,
    config: ConnectionConfig,
    unreachable: Seq<bool>,
    now: u64,
    waited: u64,
) -> (Seq<PooledConnection<T>>, nat, Checkout<T>) {
    if idle.len() == 0 && size < config.max_connections {
        (idle, size, Checkout::Create)
    } else {
        let kept = survivors(idle, unreachable, now, config.idle_timeout);
        let left = (size - (idle.len() - kept.len())) as nat;
        if kept.len() > 0 {
            (kept.drop_first(), left, Checkout::Reuse(kept[0].connection))
        } else if waited > config.connection_timeout {
            (kept, left, Checkout::TimedOut)
        } else {
            (kept, left, Checkout::Wait)
        }
    }
}

/// The idle list and the size of a pool after the loan of `connection` ended
/// with `failure`, or with none.
pub open spec fn settled<T>(
    idle: Seq<PooledConnection<T>>,
    size: nat,
    connection: T,
    failure: Option<ClientError>,
    now: u64,
) -> (Seq<PooledConnection<T>>, nat) {
    match failure {
        None => (idle.push(PooledConnection { connection, idle_since: now }), size),
        Some(_) => (idle, (size - 1) as nat),
    }
}

/// A pool of connections of type `T`.
#[derive(Debug)]
pub struct ConnectionPool<T> {
    connections: Vec<PooledConnection<T>>,
    connection_count: u32,
}

impl<T> ConnectionPool<T> {
    /// The idle connections, oldest first.
    pub closed spec fn idle(&self) -> Seq<PooledConnection<T>> {
        self.connections@
    }

    /// The number of connections that the pool owns, idle or on loan.
    pub closed spec fn size(&self) -> nat {
        self.connection_count as nat
    }

    /// The number of connections on loan.
    pub open spec fn in_use(&self) -> int {
        self.size() - self.idle().len()
    }

    /// The idle connections are among those that the pool owns.
    pub open spec fn wf(&self) -> bool {
        self.idle().len() <= self.size()
    }

    /// A pool that owns nothing.
    pub fn new() -> (pool: Self)
        ensures
            pool.wf(),
            pool.idle() == Seq::<PooledConnection<T>>::empty(),
            pool.size() == 0,
    {
        ConnectionPool { connections: Vec::new(), connection_count: 0 }
    }

    /// The number of connections that the pool owns.
    pub fn connection_count(&self) -> (n: u32)
        ensures
            n == self.size(),
    {
        self.connection_count
    }

    /// The idle connections, oldest first, for the owner to probe.
    pub fn idle_connections(&self) -> (idle: &[PooledConnection<T>])
        ensures
            idle@ == self.idle(),
    {
        self.connections.as_slice()
    }

    /// Whether the pool owns nothing yet, so that a first connection is to be
    /// made before any request.
    pub fn needs_first_connection(&self) -> (b: bool)
        ensures
            b == (self.size() == 0),
    {
        self.connection_count == 0
    }

    /// Counts a connection that has just been made. It is on loan to whoever
    /// made it.
    pub fn record_created(&mut self)
        requires
            old(self).wf(),
            old(self).size() < u32::MAX,
        ensures
            final(self).wf(),
            final(self).idle() == old(self).idle(),
            final(self).size() == old(self).size() + 1,
    {
        self.connection_count = self.connection_count + 1;
    }

    /// Takes back a connection that was on loan: it comes to rest behind the
    /// other idle ones.
    pub fn release(&mut self, connection: T, now: u64)
        requires
            old(self).wf(),
            old(self).in_use() > 0,
        ensures
            final(self).wf(),
            final(self).idle() == old(self).idle().push(
                PooledConnection { connection, idle_since: now },
            ),
            final(self).size() == old(self).size(),
    {
        self.connections.push(PooledConnection { connection, idle_since: now });
    }

    /// Forgets a connection that was on loan and has been closed.
    pub fn discard(&mut self)
        requires
            old(self).wf(),
            old(self).in_use() > 0,
        ensures
            final(self).wf(),
            final(self).idle() == old(self).idle(),
            final(self).size() == old(self).size() - 1,
    {
        self.connection_count = self.connection_count - 1;
    }

    /// Ends a loan after a request: a connection whose request succeeded goes
    /// back to rest; one whose request failed, on the stream or by an answer
    /// that was not the expected one, is closed and forgotten.
    pub fn settle(&mut self, connection: T, failure: Option<ClientError>, now: u64)
        requires
            old(self).wf(),
            old(self).in_use() > 0,
        ensures
            final(self).wf(),
            (final(self).idle(), final(self).size()) == settled(
                old(self).idle(),
                old(self).size(),
                connection,
                failure,
                now,
            ),
    {
        match failure {
            None => {
                self.release(connection, now);
            },
            Some(_) => {
                self.discard();
            },
        }
    }

    /// Drops the idle connections whose probe failed or that have lain idle
    /// for too long.
    fn evict(&mut self, unreachable: &[bool], now: u64, idle_timeout: u64)
        requires
            old(self).wf(),
        ensures
            final(self).wf(),
            final(self).idle() == survivors(old(self).idle(), unreachable@, now, idle_timeout),
            final(self).idle().len() <= old(self).idle().len(),
            final(self).in_use() == old(self).in_use(),
    {
        let ghost before = self.connections@;
        let ghost count = self.connection_count;
        let mut seen: usize = 0;
        let mut kept: usize = 0;
        while kept < self.connections.len()
            invariant
                kept <= seen <= before.len(),
                self.connections@ == survivors(
                    before.take(seen as int),
                    unreachable@,
                    now,
                    idle_timeout,
                ) + before.skip(seen as int),
                kept == survivors(
                    before.take(seen as int),
                    unreachable@,
                    now,
                    idle_timeout,
                ).len(),
                self.connection_count + (seen - kept) == count,
                self.connections.len() <= self.connection_count,
            decreases before.len() - seen,
        {
            assert(before.take(seen + 1).drop_last() =~= before.take(seen as int));
            let idle_since = self.connections[kept].idle_since;
            let dead = (seen < unreachable.len() && unreachable[seen]) || (now > idle_since && now
                - idle_since > idle_timeout);
            if dead {
                let _ = self.connections.remove(kept);
                self.connection_count = self.connection_count - 1;
            } else {
                kept = kept + 1;
            }
            seen = seen + 1;
        }
    }

    /// One pass of a checkout. `unreachable[i]` says that the probe of the
    /// idle connection at `i` failed; `now` is the owner's clock and `waited`
    /// the time since the checkout began, both in milliseconds.
    pub fn checkout(
        &mut self,
        config: &ConnectionConfig,
        unreachable: &[bool],
        now: u64,
        waited: u64,
    ) -> (r: Checkout<T>)
        requires
            old(self).wf(),
        ensures
            final(self).wf(),
            (final(self).idle(), final(self).size(), r) == checkout_of(
                old(self).idle(),
                old(self).size(),
                *config,
                unreachable@,
                now,
                waited,
            ),
    {
        if self.connections.len() == 0 && self.connection_count < config.max_connections {
            return Checkout::Create;
        }
        self.evict(unreachable, now, config.idle_timeout);
        if self.connections.len() > 0 {
            let first = self.connections.remove(0);
            Checkout::Reuse(first.connection)
        } else if waited > config.connection_timeout {
            Checkout::TimedOut
        } else {
            Checkout::Wait
        }
    }
}

/// Ends the loan of a connection whose pool may be gone: where the pool is
/// still there the loan is settled in it, where it is not the connection is
/// closed.
pub fn release_to_pool<T>(
    pool: Option<&mut ConnectionPool<T>>,
    connection: T,
    failure: Option<ClientError>,
    now: u64,
)
    requires
        pool matches Some(owner) ==> owner.wf() && owner.in_use() > 0,
    ensures
        pool matches Some(owner) ==> final(owner).wf() && (final(owner).idle(), final(owner).size())
            == settled(owner.idle(), owner.size(), connection, failure, now),
{
    match pool {
        Some(owner) => {
            owner.settle(connection, failure, now);
        },
        None => {},
    }
}

/// An eviction leaves no more connections than there were.
pub proof fn lemma_survivors_are_fewer<T>(
    idle: Seq<PooledConnection<T>>,
    unreachable: Seq<bool>,
    now: u64,
    idle_timeout: u64,
)
    ensures
        survivors(idle, unreachable, now, idle_timeout).len() <= idle.len(),
    decreases idle.len(),
{
    if idle.len() > 0 {
        lemma_survivors_are_fewer(idle.drop_last(), unreachable, now, idle_timeout);
    }
}

/// What a checkout does to the counts. The idle connections stay among
/// those owned, the pool does not grow, and the number on loan grows by the
/// one connection handed out, if one is. A caller is told to make a
/// connection only while there is room for it.
pub proof fn lemma_checkout_accounts<T>(
    idle: Seq<PooledConnection<T>>,
    size: nat,
    config: ConnectionConfig,
    unreachable: Seq<bool>,
    now: u64,
    waited: u64,
)
    requires
        idle.len() <= size,
    ensures
        ({
            let (rest, left, told) = checkout_of(idle, size, config, unreachable, now, waited);
            &&& rest.len() <= left <= size
            &&& left - rest.len() == size - idle.len() + (if told is Reuse {
                1int
            } else {
                0int
            })
            &&& told is Create ==> left == size && size < config.max_connections
        }),
{
    lemma_survivors_are_fewer(idle, unreachable, now, config.idle_timeout);
}

/// What happens to a pool, one event at a time.
pub enum PoolEvent<T> {
    /// One pass of a checkout.
    CheckedOut { unreachable: Seq<bool>, now: u64, waited: u64 },
    /// A connection has been made and recorded.
    Created,
    /// The loan of a connection has been settled.
    Settled { connection: T, failure: Option<ClientError>, now: u64 },
}

/// A pool as the events see it: the idle connections, the number owned, and
/// whether the last event was a checkout that asked for a connection to be
/// made.
pub struct PoolCourse<T> {
    pub idle: Seq<PooledConnection<T>>,
    pub size: nat,
    pub creating: bool,
}

/// Whether `event` may happen to `pool`: a connection is made for a pool
/// that owns none, or right after the checkout that asked for it, and only
/// the loan of a connection on loan is settled.
pub open spec fn event_allowed<T>(pool: PoolCourse<T>, event: PoolEvent<T>) -> bool {
    match event {
        PoolEvent::CheckedOut { .. } => true,
        PoolEvent::Created => pool.creating || pool.size == 0,
        PoolEvent::Settled { .. } => pool.idle.len() < pool.size,
    }
}

/// The pool after `event`.
pub open spec fn after_event<T>(
    pool: PoolCourse<T>,
    config: ConnectionConfig,
    event: PoolEvent<T>,
) -> PoolCourse<T> {
    match event {
        PoolEvent::CheckedOut { unreachable, now, waited } => {
            let (rest, left, told) = checkout_of(
                pool.idle,
                pool.size,
                config,
                unreachable,
                now,
                waited,
            );
            PoolCourse { idle: rest, size: left, creating: told is Create }
        },
        PoolEvent::Created => PoolCourse {
            idle: pool.idle,
            size: pool.size + 1,
            creating: false,
        },
        PoolEvent::Settled { connection, failure, now } => {
            let (rest, left) = settled(pool.idle, pool.size, connection, failure, now);
            PoolCourse { idle: rest, size: left, creating: false }
        },
    }
}

/// The pool after `events`, from a pool that owns nothing.
pub open spec fn after_events<T>(config: ConnectionConfig, events: Seq<PoolEvent<T>>) -> PoolCourse<
    T,
>
    decreases events.len(),
{
    if events.len() == 0 {
        PoolCourse { idle: Seq::empty(), size: 0, creating: false }
    } else {
        after_event(after_events(config, events.drop_last()), config, events.last())
    }
}

/// Whether each of `events` may happen when its turn comes.
pub open spec fn course_allowed<T>(config: ConnectionConfig, events: Seq<PoolEvent<T>>) -> bool
    decreases events.len(),
{
    events.len() > 0 ==> course_allowed(config, events.drop_last()) && event_allowed(
        after_events(config, events.drop_last()),
        events.last(),
    )
}

/// A pool that allows at least one connection never owns more than
/// `max_connections`, and its idle connections are always among those it
/// owns, as long as every creation is recorded before the next event.
pub proof fn lemma_pool_stays_within_cap<T>(config: ConnectionConfig, events: Seq<PoolEvent<T>>)
    requires
        config.max_connections >= 1,
        course_allowed(config, events),
    ensures
        after_events(config, events).idle.len() <= after_events(config, events).size,
        after_events(config, events).size <= config.max_connections,
        after_events(config, events).creating ==> after_events(config, events).size
            < config.max_connections,
    decreases events.len(),
{
    if events.len() > 0 {
        let before = after_events(config, events.drop_last());
        lemma_pool_stays_within_cap(config, events.drop_last());
        match events.last() {
            PoolEvent::CheckedOut { unreachable, now, waited } => {
                lemma_checkout_accounts(before.idle, before.size, config, unreachable, now, waited);
            },
            _ => {},
        }
    }
}

/// Whether none of `idle` has lain idle for too long at `now`.
pub open spec fn all_fresh<T>(
    idle: Seq<PooledConnection<T>>,
    now: u64,
    idle_timeout: u64,
) -> bool {
    forall|i: int|
        0 <= i < idle.len() ==> !expired((#[trigger] idle[i]).idle_since, now, idle_timeout)
}

/// An eviction with no failed probe and no stale connection drops nothing.
pub proof fn lemma_fresh_pool_loses_nothing<T>(
    idle: Seq<PooledConnection<T>>,
    now: u64,
    idle_timeout: u64,
)
    requires
        all_fresh(idle, now, idle_timeout),
    ensures
        survivors(idle, Seq::<bool>::empty(), now, idle_timeout) == idle,
    decreases idle.len(),
{
    if idle.len() > 0 {
        assert(all_fresh(idle.drop_last(), now, idle_timeout));
        lemma_fresh_pool_loses_nothing(idle.drop_last(), now, idle_timeout);
    }
}

/// One request of a client that borrows one connection at a time: the
/// checkout at `taken`, the request, and the end of the loan at `released`.
/// `connection` is the one made where the pool asks for one.
pub struct Visit<T> {
    pub connection: T,
    pub taken: u64,
    pub released: u64,
}

/// The pool after `visit`, whose probes and request succeed: the idle list,
/// the size, and whether a connection was made.
pub open spec fn after_visit<T>(
    idle: Seq<PooledConnection<T>>,
    size: nat,
    config: ConnectionConfig,
    visit: Visit<T>,
) -> (Seq<PooledConnection<T>>, nat, bool) {
    let (rest, left, told) = checkout_of(
        idle,
        size,
        config,
        Seq::<bool>::empty(),
        visit.taken,
        0,
    );
    match told {
        Checkout::Create => {
            let (held, owned) = settled(rest, left + 1, visit.connection, None, visit.released);
            (held, owned, true)
        },
        Checkout::Reuse(connection) => {
            let (held, owned) = settled(rest, left, connection, None, visit.released);
            (held, owned, false)
        },
        _ => (rest, left, false),
    }
}

/// A visit to a pool with nothing on loan and nothing stale finds a
/// connection without waiting: an empty pool has one made, any other hands
/// out its oldest, and afterwards the connection is at rest again.
pub proof fn lemma_visit_finds_a_connection<T>(
    idle: Seq<PooledConnection<T>>,
    size: nat,
    config: ConnectionConfig,
    visit: Visit<T>,
)
    requires
        config.max_connections >= 1,
        idle.len() == size,
        all_fresh(idle, visit.taken, config.idle_timeout),
    ensures
        size == 0 ==> after_visit(idle, size, config, visit) == (
            seq![PooledConnection { connection: visit.connection, idle_since: visit.released }],
            1nat,
            true,
        ),
        size > 0 ==> after_visit(idle, size, config, visit) == (
            idle.drop_first().push(
                PooledConnection { connection: idle[0].connection, idle_since: visit.released },
            ),
            size,
            false,
        ),
{
    lemma_fresh_pool_loses_nothing(idle, visit.taken, config.idle_timeout);
}

/// The pool after `visits`, one after the other, from a pool that owns
/// nothing: the idle list, the size, and the number of connections made.
pub open spec fn after_visits<T>(config: ConnectionConfig, visits: Seq<Visit<T>>) -> (
    Seq<PooledConnection<T>>,
    nat,
    nat,
)
    decreases visits.len(),
{
    if visits.len() == 0 {
        (Seq::empty(), 0, 0)
    } else {
        let (idle, size, made) = after_visits(config, visits.drop_last());
        let (held, owned, created) = after_visit(idle, size, config, visits.last());
        (held, owned, if created {
            made + 1
        } else {
            made
        })
    }
}

/// Whether each visit but the first begins no later than `idle_timeout`
/// after the one before it ended.
pub open spec fn visits_in_time<T>(config: ConnectionConfig, visits: Seq<Visit<T>>) -> bool {
    forall|i: int|
        0 < i < visits.len() ==> (#[trigger] visits[i]).taken - visits[i - 1].released
            <= config.idle_timeout
}

/// Requests made one after the other share one connection: the first has it
/// made, every later one finds it at rest, and the pool never owns a second,
/// as long as the connection stays alive and never lies idle for too long.
pub proof fn lemma_sequential_requests_share_one_connection<T>(
    config: ConnectionConfig,
    visits: Seq<Visit<T>>,
)
    requires
        config.max_connections >= 1,
        visits.len() > 0,
        visits_in_time(config, visits),
    ensures
        after_visits(config, visits) == (
            seq![
                PooledConnection {
                    connection: visits[0].connection,
                    idle_since: visits.last().released,
                },
            ],
            1nat,
            1nat,
        ),
    decreases visits.len(),
{
    let earlier = visits.drop_last();
    if earlier.len() == 0 {
        lemma_visit_finds_a_connection(Seq::empty(), 0, config, visits.last());
    } else {
        assert(visits_in_time(config, earlier));
        lemma_sequential_requests_share_one_connection(config, earlier);
        lemma_visit_finds_a_connection(after_visits(config, earlier).0, 1, config, visits.last());
    }
}

} // verus!
