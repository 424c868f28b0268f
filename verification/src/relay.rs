//! Lifetime of relay copies of SAF documents. A copy (named by the hash of
//! its document URI) lives in the relay directory while it keeps being used:
//! each access renews it, a cleanup waits one TTL after the last access and
//! then removes every file of that hash, and at most one cleanup per hash is
//! pending at a time. Starting the server forgets everything (the directory
//! is swept).

use vstd::prelude::*;
use vstd::hash_map::StringHashMap;
use vstd::hash_set::StringHashSet;
use crate::text::{chars_of, chars_start_with, concat};
use crate::text::seq_starts_with;

verus! {

/// Time a relay copy is kept after its last access (one hour).
pub const RELAY_CACHE_TTL_MS: u64 = 3_600_000;

/// Interval at which a running relay copy is polled (200 ms).
pub const COPY_POLL_INTERVAL_MS: u64 = 200;

/// What a cleanup does when its wait ends.
#[derive(Debug, Clone, Copy, PartialEq, Eq)]
pub enum CleanupTick {
    /// The copy was used within the TTL: wait another TTL.
    KeepWaiting,
    /// Remove every file of the hash; the hash is forgotten.
    Remove,
}

/// Whether the copy `name` was accessed less than a TTL before `now_ms`.
pub open spec fn fresh_at(accesses: Map<Seq<char>, u64>, name: Seq<char>, now_ms: u64) -> bool {
    accesses.contains_key(name) && (now_ms <= accesses[name] || now_ms - accesses[name] < RELAY_CACHE_TTL_MS)
}

/// Last access per copy, and the copies with a pending cleanup.
pub struct RelayState {
    last_access: StringHashMap<u64>,
    pending_cleanup: StringHashSet,
}

impl RelayState {
    /// Last access time (ms) per copy name.
    pub closed spec fn accesses(&self) -> Map<Seq<char>, u64> {
        self.last_access@
    }

    /// Copies whose cleanup is pending.
    pub closed spec fn pending(&self) -> Set<Seq<char>> {
        self.pending_cleanup@
    }

    /// Nothing known.
    pub fn new() -> (s: Self)
        ensures
            s.accesses() == Map::<Seq<char>, u64>::empty(),
            s.pending() == Set::<Seq<char>>::empty(),
    {
        RelayState { last_access: StringHashMap::new(), pending_cleanup: StringHashSet::new() }
    }

    /// Records an access to the copy `name` (renews its TTL).
    pub fn touch(&mut self, name: &str, now_ms: u64)
        ensures
            final(self).accesses() == old(self).accesses().insert(name@, now_ms),
            final(self).pending() == old(self).pending(),
    {
        self.last_access.insert(name.to_owned(), now_ms);
    }

    /// Records an access and asks for a cleanup of `name`; returns whether a
    /// cleanup has to be started (none is pending for it yet).
    pub fn arm_cleanup(&mut self, name: &str, now_ms: u64) -> (start: bool)
        ensures
            start == !old(self).pending().contains(name@),
            final(self).accesses() == old(self).accesses().insert(name@, now_ms),
            final(self).pending() == old(self).pending().insert(name@),
    {
        self.last_access.insert(name.to_owned(), now_ms);
        self.pending_cleanup.insert(name.to_owned())
    }

    /// End of a cleanup's wait for `name`: keep waiting while the copy is
    /// fresh; otherwise its files go and the hash is forgotten (a later
    /// cleanup can start again).
    pub fn cleanup_tick(&mut self, name: &str, now_ms: u64) -> (t: CleanupTick)
        ensures
            fresh_at(old(self).accesses(), name@, now_ms) ==> t == CleanupTick::KeepWaiting && final(self).accesses()
                == old(self).accesses() && final(self).pending() == old(self).pending(),
            !fresh_at(old(self).accesses(), name@, now_ms) ==> t == CleanupTick::Remove && final(self).accesses()
                == old(self).accesses().remove(name@) && final(self).pending() == old(self).pending().remove(name@),
    {
        let fresh = match self.last_access.get(name) {
            Some(t) => now_ms <= *t || now_ms - *t < RELAY_CACHE_TTL_MS,
            None => false,
        };
        if fresh {
            return CleanupTick::KeepWaiting;
        }
        self.last_access.remove(name);
        self.pending_cleanup.remove(name);
        CleanupTick::Remove
    }

    /// Server start: forget every copy and pending cleanup.
    pub fn reset(&mut self)
        ensures
            final(self).accesses() == Map::<Seq<char>, u64>::empty(),
            final(self).pending() == Set::<Seq<char>>::empty(),
    {
        self.last_access.clear();
        self.pending_cleanup.clear();
    }
}

/// Whether a file of the relay directory belongs to the copy `hash` (its
/// final name or a `.part` variant): its name starts with the hash.
pub fn relay_file_of(file_name: &str, hash: &str) -> (b: bool)
    ensures
        b == seq_starts_with(file_name@, hash@),
{
    let f = chars_of(file_name);
    let h = chars_of(hash);
    chars_start_with(f.as_slice(), h.as_slice())
}

/// Name under which a relay copy is staged before it is moved in place.
pub fn relay_part_name(final_name: &str) -> (n: String)
    ensures
        n@ == final_name@ + ".part"@,
{
    concat(final_name, ".part")
}

/// A copy accessed less than a TTL ago is kept when its cleanup wakes up.
pub proof fn lemma_access_keeps_copy(accesses: Map<Seq<char>, u64>, name: Seq<char>, at_ms: u64, now_ms: u64)
    requires
        now_ms < at_ms + RELAY_CACHE_TTL_MS,
    ensures
        fresh_at(accesses.insert(name, at_ms), name, now_ms),
{
}

/// Arming a cleanup twice before it ends starts one cleanup only: once
/// `arm_cleanup` has left `name` pending, arming it again (which starts a
/// cleanup only for a name that is not pending) starts nothing, and touches
/// in between keep it pending.
pub proof fn lemma_one_cleanup_per_copy(armed: RelayState, later: RelayState, name: Seq<char>)
    requires
        armed.pending().contains(name),
        later.pending() == armed.pending(),
    ensures
        later.pending().contains(name),
        later.pending().insert(name) == later.pending(),
{
    assert(later.pending().insert(name) =~= later.pending());
}

} // verus!
