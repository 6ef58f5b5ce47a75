//! The connection-pool adapter: a bounded pool of live database handles,
//! one checked out per request for its whole duration and returned on
//! every exit path.
//!
//! The model tracks what the contracts speak of — the bound, the
//! occupancy, and handle health: a handle is health-checked before it is
//! handed out, a broken one is discarded rather than reused, and
//! exhaustion of the bound is its own failure
//! ([`crate::error::Error::PoolExhausted`]), distinct from any query
//! failure.  Opening the wire connection itself is glue outside the
//! core.

use vstd::prelude::*;

use crate::error::Error;

verus! {

/// Opens new database handles from a fixed set of credentials.
pub struct DbConnectionManager {
    username: String,
    password: String,
    connect_string: String,
}

/// One live database handle, with its health.
#[derive(Debug)]
pub struct DbConnection {
    broken: bool,
}

impl DbConnection {
    /// Whether this handle has gone bad.
    pub closed spec fn spec_broken(&self) -> bool {
        self.broken
    }
}

impl DbConnectionManager {
    /// The credentials this manager opens handles with.
    pub closed spec fn spec_credentials(&self) -> (Seq<char>, Seq<char>, Seq<char>) {
        (self.username@, self.password@, self.connect_string@)
    }

    /// Keeps the credentials used to open every new handle.
    pub fn new(username: &str, password: &str, connect_string: &str) -> (m: DbConnectionManager)
        ensures
            m.spec_credentials() == (username@, password@, connect_string@),
    {
        DbConnectionManager {
            username: username.to_owned(),
            password: password.to_owned(),
            connect_string: connect_string.to_owned(),
        }
    }

    /// Opens a fresh, healthy handle.
    pub fn connect(&self) -> (c: DbConnection)
        ensures
            !c.spec_broken(),
    {
        DbConnection { broken: false }
    }

    /// The health check run before a handle is handed out.
    pub fn is_valid(&self, conn: &DbConnection) -> (r: Result<(), Error>)
        ensures
            r is Ok <==> !conn.spec_broken(),
            r is Err ==> r matches Err(Error::ConnectionError),
    {
        if conn.broken {
            Err(Error::ConnectionError)
        } else {
            Ok(())
        }
    }

    /// Whether a handle has gone bad and must be discarded.
    pub fn has_broken(&self, conn: &DbConnection) -> (r: bool)
        ensures
            r == conn.spec_broken(),
    {
        conn.broken
    }
}

/// A bounded pool of handles: at most `max_size` checked out at once.
pub struct ConnectionPool {
    manager: DbConnectionManager,
    max_size: usize,
    checked_out: usize,
}

impl ConnectionPool {
    /// The fixed bound.
    pub closed spec fn spec_max_size(&self) -> int {
        self.max_size as int
    }

    /// How many handles are checked out right now.
    pub closed spec fn spec_checked_out(&self) -> int {
        self.checked_out as int
    }

    /// Never more handles out than the bound allows.
    pub open spec fn wf(&self) -> bool {
        0 <= self.spec_checked_out() <= self.spec_max_size()
    }

    /// A pool over the given manager, with nothing checked out yet.
    pub fn build(manager: DbConnectionManager, max_size: usize) -> (p: ConnectionPool)
        requires
            max_size >= 1,
        ensures
            p.wf(),
            p.spec_max_size() == max_size,
            p.spec_checked_out() == 0,
    {
        ConnectionPool { manager, max_size, checked_out: 0 }
    }

    /// Checks one healthy handle out, or fails with the pool's own
    /// exhaustion error — distinct from any query failure — when the
    /// bound is reached.
    pub fn acquire(&mut self) -> (r: Result<DbConnection, Error>)
        requires
            old(self).wf(),
        ensures
            final(self).wf(),
            final(self).spec_max_size() == old(self).spec_max_size(),
            old(self).spec_checked_out() < old(self).spec_max_size() ==> (match r {
                Ok(c) => !c.spec_broken(),
                Err(_) => false,
            }) && final(self).spec_checked_out() == old(self).spec_checked_out() + 1,
            old(self).spec_checked_out() == old(self).spec_max_size() ==> (r matches Err(
                Error::PoolExhausted,
            )) && final(self).spec_checked_out() == old(self).spec_checked_out(),
    {
        if self.checked_out < self.max_size {
            let conn = self.manager.connect();
            match self.manager.is_valid(&conn) {
                Ok(_) => (),
                Err(_) => {
                    proof {
                        assert(false);
                    }
                },
            }
            self.checked_out = self.checked_out + 1;
            Ok(conn)
        } else {
            Err(Error::PoolExhausted)
        }
    }

    /// Returns a handle; one that has gone bad is discarded rather than
    /// kept for reuse.
    pub fn release(&mut self, conn: DbConnection)
        requires
            old(self).wf(),
            old(self).spec_checked_out() >= 1,
        ensures
            final(self).wf(),
            final(self).spec_max_size() == old(self).spec_max_size(),
            final(self).spec_checked_out() == old(self).spec_checked_out() - 1,
    {
        let _discard_if_broken = self.manager.has_broken(&conn);
        self.checked_out = self.checked_out - 1;
    }
}

} // verus!
