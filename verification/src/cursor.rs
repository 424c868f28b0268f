//! Receiver-side written-byte cursors for resumable transfers.
//!
//! The receiver (the side that writes to disk) is the source of truth for the
//! resume point. A cursor holds the bytes already written (`position`) and the
//! declared total size (`total`, 0 = unknown). Cursors never move past a known
//! total and never roll forward.

use vstd::prelude::*;
use vstd::hash_map::StringHashMap;

verus! {

/// File fingerprint reported by the sender (`X-File-Size` / `X-File-Mtime`).
#[derive(Debug, Clone, Copy, PartialEq, Eq)]
pub struct FileFingerprint {
    /// Size in bytes.
    pub size: u64,
    /// Modification time (Unix seconds).
    pub mtime: u64,
}

/// Cursor errors.
#[derive(Debug, Clone, Copy, PartialEq, Eq)]
pub enum CursorError {
    /// Advancing would pass the known total (stale cursor / changed source).
    Overrun { position: u64, total: u64 },
    /// Rolling back to a point after the current position.
    InvalidRollback { from: u64, to: u64 },
}

/// Written-byte cursor.
#[derive(Debug, Clone, Copy, PartialEq, Eq)]
pub struct Cursor {
    /// Bytes already written.
    pub position: u64,
    /// Total size (0 = unknown).
    pub total: u64,
}

/// `a + b` saturated at `u64::MAX`.
pub open spec fn sat_add(a: u64, b: u64) -> u64 {
    if a + b > u64::MAX { u64::MAX } else { (a + b) as u64 }
}

/// A position is within a known total (an unknown total bounds nothing).
pub open spec fn within_total(position: u64, total: u64) -> bool {
    total == 0 || position <= total
}

impl Cursor {
    /// Fresh cursor at position 0.
    pub fn new(total: u64) -> (c: Self)
        ensures
            c.position == 0,
            c.total == total,
    {
        Cursor { position: 0, total }
    }

    /// Restores a persisted cursor; a position past a known total is stale.
    pub fn restore(position: u64, total: u64) -> (r: Result<Self, CursorError>)
        ensures
            within_total(position, total) <==> r is Ok,
            r matches Ok(c) ==> c.position == position && c.total == total,
            r matches Err(e) ==> e == (CursorError::Overrun { position, total }),
    {
        if total != 0 && position > total {
            return Err(CursorError::Overrun { position, total });
        }
        Ok(Cursor { position, total })
    }

    /// Advances by `n` bytes (saturating); refuses to pass a known total and
    /// then leaves the cursor unchanged.
    pub fn advance(&mut self, n: u64) -> (r: Result<u64, CursorError>)
        ensures
            final(self).total == old(self).total,
            within_total(sat_add(old(self).position, n), old(self).total) <==> r is Ok,
            r matches Ok(p) ==> p == sat_add(old(self).position, n) && final(self).position == p,
            r matches Err(e) ==> e == (CursorError::Overrun {
                position: sat_add(old(self).position, n),
                total: old(self).total,
            }) && *final(self) == *old(self),
    {
        let next = self.position.saturating_add(n);
        if self.total != 0 && next > self.total {
            return Err(CursorError::Overrun { position: next, total: self.total });
        }
        self.position = next;
        Ok(self.position)
    }

    /// Rolls back to `target` (never forward).
    pub fn rollback(&mut self, target: u64) -> (r: Result<(), CursorError>)
        ensures
            final(self).total == old(self).total,
            (target <= old(self).position) <==> r is Ok,
            r is Ok ==> final(self).position == target,
            r matches Err(e) ==> e == (CursorError::InvalidRollback {
                from: old(self).position,
                to: target,
            }) && *final(self) == *old(self),
    {
        if target > self.position {
            return Err(CursorError::InvalidRollback { from: self.position, to: target });
        }
        self.position = target;
        Ok(())
    }

    /// Resume offset: the position clamped to a known total.
    pub fn effective_offset(&self) -> (o: u64)
        ensures
            o == (if self.total != 0 && self.position > self.total { self.total } else { self.position }),
    {
        if self.total != 0 {
            if self.position < self.total { self.position } else { self.total }
        } else {
            self.position
        }
    }

    /// Whether every byte of a known total has been received.
    pub fn is_complete(&self) -> (b: bool)
        ensures
            b == (self.total != 0 && self.position >= self.total),
    {
        self.total != 0 && self.position >= self.total
    }
}

impl Default for Cursor {
    fn default() -> (c: Self)
        ensures
            c.position == 0,
            c.total == 0,
    {
        Cursor::new(0)
    }
}

/// Stored cursor entry (with the last fingerprint, to detect source changes).
#[derive(Debug, Clone, Copy, PartialEq, Eq)]
pub struct StoredCursor {
    /// Bytes written.
    pub position: u64,
    /// Last HEAD fingerprint.
    pub fingerprint: Option<FileFingerprint>,
}

/// Cursor store keyed by transfer id (entries of different keys never interfere).
pub struct CursorStore {
    inner: StringHashMap<StoredCursor>,
}

impl View for CursorStore {
    type V = Map<Seq<char>, StoredCursor>;

    closed spec fn view(&self) -> Self::V {
        self.inner@
    }
}

impl CursorStore {
    /// The store holds finitely many cursors.
    #[verifier::type_invariant]
    spec fn finitely_many(&self) -> bool {
        self.inner@.dom().finite()
    }

    /// Empty store.
    pub fn new() -> (s: Self)
        ensures
            s@ == Map::<Seq<char>, StoredCursor>::empty(),
            s@.dom().finite(),
    {
        CursorStore { inner: StringHashMap::new() }
    }

    /// Inserts or replaces the cursor of `key`; the store grows by one
    /// exactly when `key` was absent.
    pub fn upsert(&mut self, key: &str, cursor: StoredCursor)
        ensures
            final(self)@ == old(self)@.insert(key@, cursor),
            final(self)@.dom().finite(),
            final(self)@.len() == old(self)@.len() + (if old(self)@.contains_key(key@) { 0int } else { 1int }),
    {
        proof {
            use_type_invariant(&*self);
        }
        let mut m = StringHashMap::new();
        std::mem::swap(&mut m, &mut self.inner);
        m.insert(key.to_string(), cursor);
        self.inner = m;
    }

    /// The cursor of `key`, if any.
    pub fn get(&self, key: &str) -> (r: Option<StoredCursor>)
        ensures
            r == (if self@.contains_key(key@) { Some(self@[key@]) } else { None::<StoredCursor> }),
    {
        match self.inner.get(key) {
            Some(c) => Some(*c),
            None => None,
        }
    }

    /// Removes the cursor of `key`.
    pub fn remove(&mut self, key: &str)
        ensures
            final(self)@ == old(self)@.remove(key@),
            final(self)@.dom().finite(),
            final(self)@.len() == old(self)@.len() - (if old(self)@.contains_key(key@) { 1int } else { 0int }),
    {
        proof {
            use_type_invariant(&*self);
        }
        let mut m = StringHashMap::new();
        std::mem::swap(&mut m, &mut self.inner);
        m.remove(key);
        self.inner = m;
    }

    /// Advances the stored cursor of `key` by `n` (saturating) and returns the
    /// new position; an absent key is left absent and yields 0.
    pub fn advance(&mut self, key: &str, n: u64) -> (p: u64)
        ensures
            old(self)@.contains_key(key@) ==> {
                &&& p == sat_add(old(self)@[key@].position, n)
                &&& final(self)@ == old(self)@.insert(key@, StoredCursor {
                    position: p,
                    fingerprint: old(self)@[key@].fingerprint,
                })
            },
            !old(self)@.contains_key(key@) ==> p == 0 && final(self)@ == old(self)@,
    {
        proof {
            use_type_invariant(&*self);
        }
        match self.inner.get(key) {
            Some(e) => {
                let updated = StoredCursor {
                    position: e.position.saturating_add(n),
                    fingerprint: e.fingerprint,
                };
                let mut m = StringHashMap::new();
                std::mem::swap(&mut m, &mut self.inner);
                m.insert(key.to_string(), updated);
                self.inner = m;
                updated.position
            },
            None => 0,
        }
    }

    /// Number of stored cursors.
    pub fn len(&self) -> (n: usize)
        ensures
            n == self@.len(),
    {
        self.inner.len()
    }

    /// Whether the store is empty.
    pub fn is_empty(&self) -> (b: bool)
        ensures
            b == (self@.len() == 0),
    {
        self.inner.len() == 0
    }
}

} // verus!
