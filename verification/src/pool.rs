//! The bookkeeping of a pool of read connections.
//!
//! Connections are opened when they are first needed and kept for the next reader. The pool counts
//! them; whoever holds the connections themselves does what the pool decides.
use crate::error::StorageError;
use crate::text;
use vstd::prelude::*;

verus! {

/// The page cache of a read connection, in KiB.
pub const READ_CACHE_SIZE_KIB: i64 = 262_144;

/// How much of the file a read connection maps, in bytes.
pub const READ_MMAP_SIZE: i64 = 2_147_483_648;

/// How long a read connection waits for a writer, in milliseconds.
pub const READ_BUSY_TIMEOUT_MS: i64 = 10_000;

/// How many connections a pool may have, has ready and has lent.
pub struct ReadPool {
    pub capacity: usize,
    pub idle: usize,
    pub lent: usize,
}

/// Where a reader gets a connection from.
#[derive(Clone, Copy, Debug, PartialEq, Eq, Structural)]
pub enum Checkout {
    /// From the connections that are ready.
    Reuse,
    /// A new one is opened.
    Open,
    /// The pool is exhausted: the reader waits until a connection comes back.
    Wait,
}

/// What becomes of a connection that comes back.
#[derive(Clone, Copy, Debug, PartialEq, Eq, Structural)]
pub enum Checkin {
    /// It is kept for the next reader.
    Keep,
    /// It is closed.
    Close,
}

impl ReadPool {
    /// There is room for at least one connection, and never more of them than there is room for.
    pub open spec fn valid(self) -> bool {
        self.capacity >= 1 && self.idle + self.lent <= self.capacity
    }

    /// A pool without connections. It has room for at least one.
    pub fn new(capacity: usize) -> (pool: ReadPool)
        ensures
            pool.valid(),
            pool.capacity == if capacity == 0 {
                1
            } else {
                capacity
            },
            pool.idle == 0,
            pool.lent == 0,
    {
        let capacity: usize = if capacity == 0 {
            1
        } else {
            capacity
        };
        ReadPool { capacity, idle: 0, lent: 0 }
    }

    /// Lends a connection: one that is ready, or else a new one while there is room.
    pub fn checkout(&mut self) -> (c: Checkout)
        requires
            old(self).valid(),
        ensures
            final(self).valid(),
            final(self).capacity == old(self).capacity,
            match c {
                Checkout::Reuse => old(self).idle > 0 && final(self).idle == old(self).idle - 1
                    && final(self).lent == old(self).lent + 1,
                Checkout::Open => old(self).idle == 0 && old(self).lent < old(self).capacity
                    && final(self).idle == 0 && final(self).lent == old(self).lent + 1,
                Checkout::Wait => old(self).idle == 0 && old(self).lent == old(self).capacity
                    && *final(self) == *old(self),
            },
    {
        if self.idle > 0 {
            self.idle = self.idle - 1;
            self.lent = self.lent + 1;
            Checkout::Reuse
        } else if self.lent < self.capacity {
            self.lent = self.lent + 1;
            Checkout::Open
        } else {
            Checkout::Wait
        }
    }

    /// Takes note that a connection could not be opened.
    pub fn open_failed(&mut self)
        requires
            old(self).valid(),
            old(self).lent > 0,
        ensures
            final(self).valid(),
            *final(self) == (ReadPool { lent: (old(self).lent - 1) as usize, ..*old(self) }),
    {
        self.lent = self.lent - 1;
    }

    /// Takes a connection back. A broken one is not kept.
    pub fn checkin(&mut self, works: bool) -> (c: Checkin)
        requires
            old(self).valid(),
            old(self).lent > 0,
        ensures
            final(self).valid(),
            final(self).capacity == old(self).capacity,
            final(self).lent == old(self).lent - 1,
            works ==> c == Checkin::Keep && final(self).idle == old(self).idle + 1,
            !works ==> c == Checkin::Close && final(self).idle == old(self).idle,
    {
        self.lent = self.lent - 1;
        if works {
            self.idle = self.idle + 1;
            Checkin::Keep
        } else {
            Checkin::Close
        }
    }

    /// Closes the connections that are ready, and says how many those were.
    pub fn close_all(&mut self) -> (closed: usize)
        requires
            old(self).valid(),
        ensures
            final(self).valid(),
            closed == old(self).idle,
            *final(self) == (ReadPool { idle: 0, ..*old(self) }),
    {
        let closed: usize = self.idle;
        self.idle = 0;
        closed
    }
}

/// The settings of a read connection.
pub open spec fn pragmas() -> Seq<char> {
    text::flat(
        seq![
            "PRAGMA cache_size=-"@,
            text::signed_decimal(READ_CACHE_SIZE_KIB as int),
            "; PRAGMA mmap_size="@,
            text::signed_decimal(READ_MMAP_SIZE as int),
            "; PRAGMA busy_timeout="@,
            text::signed_decimal(READ_BUSY_TIMEOUT_MS as int),
            ";"@,
        ],
    )
}

/// The statements that set up a read connection.
pub fn read_pragmas() -> (s: String)
    ensures
        s@ == pragmas(),
{
    let cache = text::render_i64(READ_CACHE_SIZE_KIB);
    let mapping = text::render_i64(READ_MMAP_SIZE);
    let timeout = text::render_i64(READ_BUSY_TIMEOUT_MS);
    let parts: Vec<&str> = vec![
        "PRAGMA cache_size=-",
        cache.as_str(),
        "; PRAGMA mmap_size=",
        mapping.as_str(),
        "; PRAGMA busy_timeout=",
        timeout.as_str(),
        ";",
    ];
    proof {
        assert(text::views(parts@) =~= seq![
            "PRAGMA cache_size=-"@,
            text::signed_decimal(READ_CACHE_SIZE_KIB as int),
            "; PRAGMA mmap_size="@,
            text::signed_decimal(READ_MMAP_SIZE as int),
            "; PRAGMA busy_timeout="@,
            text::signed_decimal(READ_BUSY_TIMEOUT_MS as int),
            ";"@,
        ]);
    }
    text::concat(&parts)
}

/// The failure to open a read connection.
pub fn open_failure(path: &str, cause: &str) -> (e: StorageError)
    ensures
        e matches StorageError::QueryError(m) && m@ == "Failed to open pooled read connection for "@ + path@
            + ": "@ + cause@,
{
    let mut m = "Failed to open pooled read connection for ".to_owned();
    m.append(path);
    m.append(": ");
    m.append(cause);
    StorageError::QueryError(m)
}

/// The failure to set up a read connection.
pub fn pragma_failure(path: &str, cause: &str) -> (e: StorageError)
    ensures
        e matches StorageError::QueryError(m) && m@ == "Failed to apply read pragmas for "@ + path@ + ": "@
            + cause@,
{
    let mut m = "Failed to apply read pragmas for ".to_owned();
    m.append(path);
    m.append(": ");
    m.append(cause);
    StorageError::QueryError(m)
}

} // verus!
