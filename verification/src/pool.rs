//! A pool of connected drivers.
//!
//! The pool creates drivers with its factory up to its maximum size and
//! hands out connections. A connection given back with
//! [`ConnectionPool::release`] is parked in its slot and queued; the next
//! [`ConnectionPool::get`] takes the first queued connection if it is still
//! connected.
use vstd::prelude::*;
use crate::driver::{ConnectionConfig, DatabaseDriver, DriverCall, DriverFactory, SqliteDriverFactory};
use crate::error::Error;

verus! {

/// A connection taken from a pool: the driver and the slot it returns to.
pub struct PoolConnection<D: DatabaseDriver> {
    index: usize,
    conn: D,
}

impl<D: DatabaseDriver> PoolConnection<D> {
    /// The pool slot of the connection.
    pub closed spec fn spec_index(&self) -> usize {
        self.index
    }

    /// The connection's driver.
    pub closed spec fn spec_driver(&self) -> D {
        self.conn
    }

    /// The driver.
    pub fn driver(&self) -> (r: &D)
        ensures
            *r == self.spec_driver(),
    {
        &self.conn
    }

    /// The driver, to run statements on.
    pub fn driver_mut(&mut self) -> (r: &mut D)
        ensures
            *r == old(self).spec_driver(),
            final(self).spec_driver() == *final(r),
            final(self).spec_index() == old(self).spec_index(),
    {
        &mut self.conn
    }
}

/// A pool of drivers made by factory `F`.
pub struct ConnectionPool<F: DriverFactory = SqliteDriverFactory> {
    connections: Vec<Option<F::Driver>>,
    available: Vec<usize>,
    config: ConnectionConfig,
    factory: F,
    max_size: usize,
    current_size: usize,
    attempts: Ghost<Seq<(Seq<DriverCall>, Result<(), Error>)>>,
}

/// The number of attempts whose connection succeeded.
pub open spec fn successes(attempts: Seq<(Seq<DriverCall>, Result<(), Error>)>) -> nat
    decreases attempts.len(),
{
    if attempts.len() == 0 {
        0
    } else {
        successes(attempts.drop_last()) + if attempts.last().1 is Ok {
            1nat
        } else {
            0nat
        }
    }
}

impl<F: DriverFactory> ConnectionPool<F> {
    /// One slot per connection made; a parked connection sits in its slot.
    pub closed spec fn slots(&self) -> Seq<Option<F::Driver>> {
        self.connections@
    }

    /// The slots of the parked connections, first to be taken first.
    pub closed spec fn queue(&self) -> Seq<usize> {
        self.available@
    }

    /// The number of connections made.
    pub closed spec fn size(&self) -> nat {
        self.current_size as nat
    }

    /// The number of connections the pool makes at most.
    pub closed spec fn max_size(&self) -> nat {
        self.max_size as nat
    }

    /// The configuration each connection is made with.
    pub closed spec fn config(&self) -> ConnectionConfig {
        self.config
    }

    /// One entry per driver the factory made, in order: the calls the
    /// driver was handed before the pool let go of it or handed it out, and
    /// what its connection returned.
    pub closed spec fn attempts(&self) -> Seq<(Seq<DriverCall>, Result<(), Error>)> {
        self.attempts@
    }

    /// Every queued slot exists, there is one slot per connection made, and
    /// no more connections were made than the maximum size.
    pub closed spec fn wf(&self) -> bool {
        &&& self.connections@.len() == self.current_size
        &&& self.current_size <= self.max_size
        &&& self.current_size == successes(self.attempts@)
        &&& forall|i: int| 0 <= i < self.attempts@.len() ==> (#[trigger] self.attempts@[i]).0 == seq![
            DriverCall::Connect(self.config),
        ]
        &&& forall|i: int| 0 <= i < self.available@.len() ==> self.available@[i] < self.connections@.len()
    }

    /// Whether the first queued connection is still connected, so that
    /// [`Self::get`] hands it out again.
    pub open spec fn reusable(&self) -> bool {
        let q = self.queue();
        q.len() > 0 && (self.slots()[q[0] as int] matches Some(d) && d.spec_connected())
    }

    /// Whether [`Self::get`] finds neither a connection to hand out again
    /// nor room for a new one, so that a taker has to wait for a connection
    /// to come back.
    pub fn exhausted(&self) -> (r: bool)
        requires
            self.wf(),
        ensures
            r == (!self.reusable() && self.size() >= self.max_size()),
    {
        let reusable = if self.available.len() > 0 {
            match &self.connections[self.available[0]] {
                Some(conn) => conn.is_connected(),
                None => false,
            }
        } else {
            false
        };
        !reusable && self.current_size >= self.max_size
    }

    /// An empty pool that makes at most `max_size` connections.
    pub fn new(factory: F, config: ConnectionConfig, max_size: usize) -> (r: Self)
        ensures
            r.wf(),
            r.slots().len() == 0,
            r.queue().len() == 0,
            r.size() == 0,
            r.max_size() == max_size,
            r.config() == config,
            r.attempts() == Seq::<(Seq<DriverCall>, Result<(), Error>)>::empty(),
    {
        ConnectionPool {
            connections: Vec::with_capacity(max_size),
            available: Vec::with_capacity(max_size),
            config,
            factory,
            max_size,
            current_size: 0,
            attempts: Ghost(Seq::empty()),
        }
    }

    /// A connection: the first queued one when it is still connected, else
    /// a new one while the pool is below its maximum size. A queued
    /// connection that is no longer connected is left in its slot and
    /// leaves the queue. A new driver comes from the factory and is
    /// connected with the pool's configuration before it is handed out; one
    /// that fails to connect gives that driver's error and takes no slot.
    /// Each driver the factory makes is logged in [`Self::attempts`]. A full
    /// pool gives a pool error.
    pub fn get(&mut self) -> (r: Result<PoolConnection<F::Driver>, Error>)
        requires
            old(self).wf(),
        ensures
            final(self).wf(),
            final(self).max_size() == old(self).max_size(),
            final(self).config() == old(self).config(),
            ({
                let q = old(self).queue();
                let reuse = q.len() > 0 && (old(self).slots()[q[0] as int] matches Some(d) && d.spec_connected());
                let rest = if q.len() > 0 {
                    q.drop_first()
                } else {
                    q
                };
                &&& reuse ==> (r matches Ok(c) && c.spec_index() == q[0] && Some(c.spec_driver()) == old(self).slots()[q[0] as int] && final(self).slots() == old(self).slots().update(q[0] as int, None)
                    && final(self).queue() == rest && final(self).size() == old(self).size()
                    && final(self).attempts() == old(self).attempts())
                &&& !reuse && old(self).size() < old(self).max_size() ==> final(self).queue() == rest
                &&& !reuse && old(self).size() < old(self).max_size() && r is Ok ==> (r matches Ok(c)
                    && c.spec_index() == old(self).slots().len() && final(self).slots() == old(self).slots().push(None)
                    && c.spec_driver().spec_calls() == seq![DriverCall::Connect(old(self).config())]
                    && final(self).size() == old(self).size() + 1
                    && final(self).attempts() == old(self).attempts().push(
                    (seq![DriverCall::Connect(old(self).config())], Ok(())),
                ))
                &&& !reuse && old(self).size() < old(self).max_size() && r is Err ==> (r matches Err(e)
                    && final(self).slots() == old(self).slots() && final(self).size() == old(self).size()
                    && final(self).attempts() == old(self).attempts().push(
                    (seq![DriverCall::Connect(old(self).config())], Err(e)),
                ))
                &&& !reuse && old(self).size() >= old(self).max_size() ==> (r matches Err(e) && e is Pool
                    && final(self).queue() == rest && final(self).slots() == old(self).slots() && final(self).size() == old(self).size()
                    && final(self).attempts() == old(self).attempts())
            }),
    {
        if self.available.len() > 0 {
            let idx = self.available.remove(0);
            let usable = match &self.connections[idx] {
                Some(conn) => conn.is_connected(),
                None => false,
            };
            if usable {
                let taken = self.connections.remove(idx);
                self.connections.insert(idx, None);
                match taken {
                    Some(conn) => {
                        return Ok(PoolConnection { index: idx, conn });
                    },
                    None => {
                        assert(false);
                        return Err(Error::Pool(String::from_str("connection not available")));
                    },
                }
            }
        }
        if self.current_size < self.max_size {
            let mut conn = self.factory.create();
            let res = conn.connect(&self.config);
            let ghost entry = (conn.spec_calls(), res);
            let ghost before = self.attempts@;
            self.attempts = Ghost(before.push(entry));
            assert(self.attempts@.drop_last() =~= before);
            match res {
                Ok(()) => {
                    assert(res == Ok::<(), Error>(res->Ok_0));
                },
                Err(e) => {
                    return Err(e);
                },
            }
            let idx = self.connections.len();
            self.connections.push(None);
            self.current_size = self.current_size + 1;
            return Ok(PoolConnection { index: idx, conn });
        }
        Err(Error::Pool(String::from_str("no connection available")))
    }

    /// Gives a connection back: it is parked in its slot and queued. A
    /// connection whose slot the pool does not have is dropped.
    pub fn release(&mut self, conn: PoolConnection<F::Driver>)
        requires
            old(self).wf(),
        ensures
            final(self).wf(),
            final(self).size() == old(self).size(),
            final(self).max_size() == old(self).max_size(),
            final(self).config() == old(self).config(),
            final(self).attempts() == old(self).attempts(),
            conn.spec_index() < old(self).slots().len() ==> final(self).slots() == old(self).slots().update(
                conn.spec_index() as int,
                Some(conn.spec_driver()),
            ) && final(self).queue() == old(self).queue().push(conn.spec_index()),
            conn.spec_index() >= old(self).slots().len() ==> final(self).slots() == old(self).slots() && final(self).queue() == old(self).queue(),
    {
        let idx = conn.index;
        if idx < self.connections.len() {
            self.connections.set(idx, Some(conn.conn));
            self.available.push(idx);
        }
    }

    /// Closes every parked connection and empties its slot.
    pub fn close(&mut self)
        requires
            old(self).wf(),
        ensures
            final(self).wf(),
            final(self).slots().len() == old(self).slots().len(),
            forall|i: int| 0 <= i < final(self).slots().len() ==> final(self).slots()[i] is None,
            final(self).queue() == old(self).queue(),
            final(self).size() == old(self).size(),
            final(self).attempts() == old(self).attempts(),
    {
        let mut i: usize = 0;
        while i < self.connections.len()
            invariant
                i <= self.connections@.len(),
                self.connections@.len() == old(self).connections@.len(),
                self.available@ == old(self).available@,
                self.current_size == old(self).current_size,
                self.attempts@ == old(self).attempts@,
                self.wf(),
                forall|k: int| 0 <= k < i ==> self.connections@[k] is None,
            decreases self.connections.len() - i,
        {
            let taken = self.connections.remove(i);
            self.connections.insert(i, None);
            match taken {
                Some(mut c) => {
                    let _ = c.close();
                },
                None => {},
            }
            i += 1;
        }
    }
}

/// Over a pool's whole life: the connections it made are exactly the
/// factory's drivers whose connection succeeded, never more than its
/// maximum size; and every driver the factory made was handed the pool's
/// configuration, once, and nothing else before the pool handed it out or
/// let it go.
pub proof fn law_pool_life<F: DriverFactory>(p: &ConnectionPool<F>)
    requires
        p.wf(),
    ensures
        p.size() == successes(p.attempts()),
        p.size() <= p.max_size(),
        forall|i: int| 0 <= i < p.attempts().len() ==> (#[trigger] p.attempts()[i]).0 == seq![
            DriverCall::Connect(p.config()),
        ],
{
}

} // verus!
