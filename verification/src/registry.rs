//! Mount table of the phone's file service: which plugin shares which
//! directories under which mount name, with which operations and which
//! upload policy hook. Unmounting cancels the mount's upload sessions.
//!
//! Root validation on the file system (user authorization, canonical paths)
//! is the caller's; the table splits SAF tree roots from real paths and keeps
//! the entries unique per (plugin, mount).

use vstd::prelude::*;
use crate::error::AppError;
use crate::paths::{mount_path_ok, validate_mount_path};
use crate::peers::{FileOperation, PeerMountAnnouncement};
use crate::saf_tree::{is_saf_tree_uri, saf_tree_uri};
use crate::server::{allows, UploadHookDecision};
use crate::text::{concat, str_eq};
use vstd::hash_set::StringHashSet;
use crate::upload_session::{UploadSession, UploadSessionManager};

verus! {

/// Upload policy hook of a mount.
#[derive(Debug, Clone, Copy, PartialEq, Eq, Structural)]
pub enum HookTarget {
    /// A WASM plugin export answers.
    Wasm,
    /// The plugin's web view answers (through an event bridge).
    Webview,
    /// No hook: every upload is refused.
    NoHook,
}

/// Mount request of a plugin.
#[derive(Debug, Clone, PartialEq, Eq)]
pub struct MountOptions {
    /// Mount name (URL segment).
    pub mount_path: String,
    /// Roots: real directory paths or SAF tree URIs.
    pub roots: Vec<String>,
    /// Allowed operations.
    pub operations: Vec<FileOperation>,
}

/// A mounted directory set.
#[derive(Debug, Clone, PartialEq, Eq)]
pub struct MountEntry {
    /// Owning plugin.
    pub plugin_id: String,
    /// Mount name.
    pub mount_path: String,
    /// Real directory roots (validated by the caller).
    pub roots: Vec<String>,
    /// SAF tree roots.
    pub saf_roots: Vec<String>,
    /// Allowed operations.
    pub operations: Vec<FileOperation>,
    /// Upload policy hook.
    pub hook: HookTarget,
}

/// Key of an entry.
pub open spec fn key_of(e: MountEntry) -> (Seq<char>, Seq<char>) {
    (e.plugin_id@, e.mount_path@)
}

/// Slot `i` holds key `k`.
pub open spec fn slot_key(s: Seq<MountEntry>, i: int, k: (Seq<char>, Seq<char>)) -> bool {
    0 <= i < s.len() && key_of(s[i]) == k
}

/// No two slots share a key.
pub open spec fn keys_unique(s: Seq<MountEntry>) -> bool {
    forall|i: int, j: int| 0 <= i < s.len() && 0 <= j < s.len() && i != j ==> key_of(s[i]) != key_of(s[j])
}

/// Entries by key.
pub open spec fn entry_map(s: Seq<MountEntry>) -> Map<(Seq<char>, Seq<char>), MountEntry> {
    Map::new(
        |k: (Seq<char>, Seq<char>)| exists|i: int| #[trigger] slot_key(s, i, k),
        |k: (Seq<char>, Seq<char>)| s[choose|i: int| #[trigger] slot_key(s, i, k)],
    )
}

proof fn lemma_at(s: Seq<MountEntry>, i: int)
    requires
        keys_unique(s),
        0 <= i < s.len(),
    ensures
        entry_map(s).contains_key(key_of(s[i])),
        entry_map(s)[key_of(s[i])] == s[i],
{
    let k = key_of(s[i]);
    assert(slot_key(s, i, k));
    let j = choose|j: int| #[trigger] slot_key(s, j, k);
    assert(j == i);
}

proof fn lemma_absent(s: Seq<MountEntry>, k: (Seq<char>, Seq<char>))
    requires
        forall|i: int| 0 <= i < s.len() ==> key_of(s[i]) != k,
    ensures
        !entry_map(s).contains_key(k),
{
    if exists|i: int| #[trigger] slot_key(s, i, k) {
        let i = choose|i: int| #[trigger] slot_key(s, i, k);
        assert(key_of(s[i]) != k);
    }
}

proof fn lemma_push(s: Seq<MountEntry>, x: MountEntry)
    requires
        keys_unique(s),
        forall|i: int| 0 <= i < s.len() ==> key_of(s[i]) != key_of(x),
    ensures
        keys_unique(s.push(x)),
        entry_map(s.push(x)) == entry_map(s).insert(key_of(x), x),
{
    let t = s.push(x);
    assert(keys_unique(t));
    lemma_at(t, s.len() as int);
    assert forall|k: (Seq<char>, Seq<char>)| #[trigger] entry_map(t).contains_key(k) == entry_map(s).insert(
        key_of(x),
        x,
    ).contains_key(k) by {
        if exists|i: int| #[trigger] slot_key(t, i, k) {
            let i = choose|i: int| #[trigger] slot_key(t, i, k);
            if i < s.len() {
                assert(slot_key(s, i, k));
            }
        }
        if exists|i: int| #[trigger] slot_key(s, i, k) {
            let i = choose|i: int| #[trigger] slot_key(s, i, k);
            assert(slot_key(t, i, k));
        }
    }
    assert forall|k: (Seq<char>, Seq<char>)| #[trigger] entry_map(t).contains_key(k) implies entry_map(t)[k]
        == entry_map(s).insert(key_of(x), x)[k] by {
        if k != key_of(x) {
            let i = choose|i: int| #[trigger] slot_key(t, i, k);
            assert(i < s.len());
            lemma_at(t, i);
            lemma_at(s, i);
        }
    }
    assert(entry_map(t) =~= entry_map(s).insert(key_of(x), x));
}

proof fn lemma_remove(s: Seq<MountEntry>, j: int)
    requires
        keys_unique(s),
        0 <= j < s.len(),
    ensures
        keys_unique(s.remove(j)),
        entry_map(s.remove(j)) == entry_map(s).remove(key_of(s[j])),
{
    let t = s.remove(j);
    let r = key_of(s[j]);
    assert forall|a: int, b: int| 0 <= a < t.len() && 0 <= b < t.len() && a != b implies key_of(t[a]) != key_of(t[b]) by {
        let a2 = if a < j { a } else { a + 1 };
        let b2 = if b < j { b } else { b + 1 };
        assert(t[a] == s[a2] && t[b] == s[b2]);
    }
    assert forall|k: (Seq<char>, Seq<char>)| #[trigger] entry_map(t).contains_key(k) == entry_map(s).remove(
        r,
    ).contains_key(k) by {
        if exists|i: int| #[trigger] slot_key(t, i, k) {
            let i = choose|i: int| #[trigger] slot_key(t, i, k);
            let i2 = if i < j { i } else { i + 1 };
            assert(slot_key(s, i2, k));
            assert(i2 != j);
        }
        if exists|i: int| #[trigger] slot_key(s, i, k) {
            let i = choose|i: int| #[trigger] slot_key(s, i, k);
            if k != r {
                assert(i != j);
                let i2 = if i < j { i } else { i - 1 };
                assert(slot_key(t, i2, k));
            }
        }
    }
    assert forall|k: (Seq<char>, Seq<char>)| #[trigger] entry_map(t).contains_key(k) implies entry_map(t)[k]
        == entry_map(s).remove(r)[k] by {
        let i = choose|i: int| #[trigger] slot_key(t, i, k);
        let i2 = if i < j { i } else { i + 1 };
        lemma_at(t, i);
        lemma_at(s, i2);
    }
    assert(entry_map(t) =~= entry_map(s).remove(r));
}

proof fn lemma_len(s: Seq<MountEntry>)
    requires
        keys_unique(s),
    ensures
        entry_map(s).len() == s.len(),
        entry_map(s).dom().finite(),
    decreases s.len(),
{
    if s.len() == 0 {
        assert(entry_map(s) =~= Map::<(Seq<char>, Seq<char>), MountEntry>::empty());
    } else {
        let p = s.drop_last();
        assert(keys_unique(p));
        lemma_len(p);
        assert(p.push(s.last()) =~= s);
        lemma_push(p, s.last());
        lemma_absent(p, key_of(s.last()));
    }
}

/// `mount '{mount}' not found for plugin '{plugin}'`.
pub open spec fn not_found_message(plugin: Seq<char>, mount: Seq<char>) -> Seq<char> {
    "mount '"@ + mount + "' not found for plugin '"@ + plugin + "'"@
}

fn not_found(plugin_id: &str, mount_path: &str) -> (e: AppError)
    ensures
        e matches AppError::NotFound(m) && m@ == not_found_message(plugin_id@, mount_path@),
{
    let a = concat("mount '", mount_path);
    let b = concat(a.as_str(), "' not found for plugin '");
    let c = concat(b.as_str(), plugin_id);
    AppError::NotFound(concat(c.as_str(), "'"))
}

/// The roots of a mount request split into SAF tree URIs and real paths
/// (each in request order).
pub fn split_roots(roots: &[String]) -> (r: (Vec<String>, Vec<String>))
    ensures
        r.0@.len() + r.1@.len() == roots@.len(),
        r.0@.map_values(|x: String| x@) == roots@.map_values(|x: String| x@).filter(|u: Seq<char>| saf_tree_uri(u)),
        r.1@.map_values(|x: String| x@) == roots@.map_values(|x: String| x@).filter(|u: Seq<char>| !saf_tree_uri(u)),
{
    let ghost all = roots@.map_values(|x: String| x@);
    let ghost is_saf = |u: Seq<char>| saf_tree_uri(u);
    let ghost not_saf = |u: Seq<char>| !saf_tree_uri(u);
    let mut saf: Vec<String> = Vec::new();
    let mut reals: Vec<String> = Vec::new();
    let mut i: usize = 0;
    proof {
        reveal(Seq::filter);
        assert(all.take(0) =~= Seq::<Seq<char>>::empty());
    }
    while i < roots.len()
        invariant
            i <= roots@.len(),
            all == roots@.map_values(|x: String| x@),
            is_saf == (|u: Seq<char>| saf_tree_uri(u)),
            not_saf == (|u: Seq<char>| !saf_tree_uri(u)),
            saf@.map_values(|x: String| x@) == all.take(i as int).filter(is_saf),
            reals@.map_values(|x: String| x@) == all.take(i as int).filter(not_saf),
            saf@.len() + reals@.len() == i,
        decreases roots@.len() - i,
    {
        let r = roots[i].clone();
        proof {
            assert(all.take(i + 1).drop_last() =~= all.take(i as int));
            assert(all.take(i + 1).last() == r@);
            reveal(Seq::filter);
        }
        let ghost s0 = saf@;
        let ghost r0 = reals@;
        if is_saf_tree_uri(r.as_str()) {
            saf.push(r);
            proof {
                assert(saf@.map_values(|x: String| x@) =~= s0.map_values(|x: String| x@).push(saf@.last()@));
            }
        } else {
            reals.push(r);
            proof {
                assert(reals@.map_values(|x: String| x@) =~= r0.map_values(|x: String| x@).push(reals@.last()@));
            }
        }
        i += 1;
    }
    proof {
        assert(all.take(roots@.len() as int) =~= all);
    }
    (saf, reals)
}

/// Whether roots must be authorized for writing (the mount allows upload)
/// rather than for reading.
pub fn needs_write_access(operations: &[FileOperation]) -> (w: bool)
    ensures
        w == operations@.contains(FileOperation::Upload),
{
    allows(operations, FileOperation::Upload)
}

/// Checks a mount request before any root is looked at: the mount name must
/// be URL-segment safe and at least one root must be given.
pub fn check_mount_request(mount_path: &str, roots: &[String]) -> (r: Result<(), AppError>)
    ensures
        r is Ok <==> mount_path_ok(mount_path) && roots@.len() > 0,
        r matches Err(e) ==> e is InvalidInput,
        mount_path_ok(mount_path) && roots@.len() == 0 ==> (r matches Err(AppError::InvalidInput(m)) && m@
            == "mount '"@ + mount_path@ + "': roots must not be empty"@),
{
    match validate_mount_path(mount_path) {
        Ok(()) => {},
        Err(e) => return Err(e),
    }
    if roots.len() == 0 {
        let a = concat("mount '", mount_path);
        return Err(AppError::InvalidInput(concat(a.as_str(), "': roots must not be empty")));
    }
    Ok(())
}

/// How an upload policy question is answered.
#[derive(Debug, Clone, PartialEq, Eq)]
pub enum HookRoute {
    /// Answered without a hook (fail closed).
    Decided(UploadHookDecision),
    /// Ask the WASM plugin.
    CallWasm,
    /// Ask the plugin's web view.
    CallWebview,
}

/// A refusal with `reason`.
pub open spec fn denial(d: UploadHookDecision, reason: Seq<char>) -> bool {
    &&& !d.allow
    &&& !d.ask
    &&& (d.reason matches Some(r) && r@ == reason)
}

/// Mount table.
#[derive(Debug)]
pub struct MountTable {
    entries: Vec<MountEntry>,
}

impl View for MountTable {
    type V = Map<(Seq<char>, Seq<char>), MountEntry>;

    /// Entries by (plugin, mount).
    open spec fn view(&self) -> Self::V {
        entry_map(self.entries())
    }
}

impl MountTable {
    /// Entries in table order.
    pub closed spec fn entries(&self) -> Seq<MountEntry> {
        self.entries@
    }

    /// Keys are unique.
    pub open spec fn wf(&self) -> bool {
        keys_unique(self.entries())
    }

    /// An empty table.
    pub fn new() -> (t: Self)
        ensures
            t.wf(),
            t.view() == Map::<(Seq<char>, Seq<char>), MountEntry>::empty(),
    {
        let t = MountTable { entries: Vec::new() };
        proof {
            assert(entry_map(t.entries@) =~= Map::<(Seq<char>, Seq<char>), MountEntry>::empty());
        }
        t
    }

    fn find(&self, plugin_id: &str, mount_path: &str) -> (r: Option<usize>)
        requires
            self.wf(),
        ensures
            r matches Some(i) ==> i < self.entries().len() && key_of(self.entries()[i as int]) == (
            plugin_id@,
            mount_path@,
            ) && self.view().contains_key((plugin_id@, mount_path@)) && self.view()[(plugin_id@, mount_path@)]
                == self.entries()[i as int],
            r is None ==> !self.view().contains_key((plugin_id@, mount_path@)) && forall|i: int|
                0 <= i < self.entries().len() ==> key_of(self.entries()[i]) != (plugin_id@, mount_path@),
    {
        let mut i: usize = 0;
        while i < self.entries.len()
            invariant
                i <= self.entries@.len(),
                keys_unique(self.entries@),
                forall|k: int| 0 <= k < i ==> key_of(self.entries@[k]) != (plugin_id@, mount_path@),
            decreases self.entries@.len() - i,
        {
            if str_eq(self.entries[i].plugin_id.as_str(), plugin_id) && str_eq(
                self.entries[i].mount_path.as_str(),
                mount_path,
            ) {
                proof {
                    lemma_at(self.entries@, i as int);
                }
                return Some(i);
            }
            i += 1;
        }
        proof {
            lemma_absent(self.entries@, (plugin_id@, mount_path@));
        }
        None
    }

    /// Number of mounts.
    pub fn mount_count(&self) -> (n: usize)
        requires
            self.wf(),
        ensures
            n == self.view().len(),
    {
        proof {
            lemma_len(self.entries@);
        }
        self.entries.len()
    }

    /// The entry of `plugin_id`/`mount_path`.
    pub fn get_entry(&self, plugin_id: &str, mount_path: &str) -> (r: Result<&MountEntry, AppError>)
        requires
            self.wf(),
        ensures
            self.view().contains_key((plugin_id@, mount_path@)) ==> r == Ok::<&MountEntry, AppError>(
                &self.view()[(plugin_id@, mount_path@)],
            ),
            !self.view().contains_key((plugin_id@, mount_path@)) ==> (r matches Err(AppError::NotFound(m))
                && m@ == not_found_message(plugin_id@, mount_path@)),
    {
        match self.find(plugin_id, mount_path) {
            Some(i) => Ok(&self.entries[i]),
            None => Err(not_found(plugin_id, mount_path)),
        }
    }

    /// Adds a mount; a (plugin, mount) pair that exists is refused.
    pub fn insert(&mut self, entry: MountEntry) -> (r: Result<(), AppError>)
        requires
            old(self).wf(),
        ensures
            final(self).wf(),
            old(self).view().contains_key(key_of(entry)) ==> (r matches Err(AppError::InvalidInput(m)) && m@
                == "mount '"@ + entry.mount_path@ + "' already exists for plugin '"@ + entry.plugin_id@ + "'"@)
                && final(self).view() == old(self).view(),
            !old(self).view().contains_key(key_of(entry)) ==> r is Ok && final(self).view() == old(
                self,
            ).view().insert(key_of(entry), entry),
    {
        match self.find(entry.plugin_id.as_str(), entry.mount_path.as_str()) {
            Some(_) => {
                let a = concat("mount '", entry.mount_path.as_str());
                let b = concat(a.as_str(), "' already exists for plugin '");
                let c = concat(b.as_str(), entry.plugin_id.as_str());
                Err(AppError::InvalidInput(concat(c.as_str(), "'")))
            },
            None => {
                proof {
                    lemma_push(self.entries@, entry);
                }
                self.entries.push(entry);
                Ok(())
            },
        }
    }

    /// Replaces the roots of a mount.
    pub fn set_roots(&mut self, plugin_id: &str, mount_path: &str, roots: Vec<String>, saf_roots: Vec<String>) -> (r: Result<(), AppError>)
        requires
            old(self).wf(),
        ensures
            final(self).wf(),
            old(self).view().contains_key((plugin_id@, mount_path@)) ==> r is Ok && final(self).view() == old(
                self,
            ).view().insert(
                (plugin_id@, mount_path@),
                MountEntry { roots, saf_roots, ..old(self).view()[(plugin_id@, mount_path@)] },
            ),
            !old(self).view().contains_key((plugin_id@, mount_path@)) ==> (r matches Err(AppError::NotFound(m))
                && m@ == not_found_message(plugin_id@, mount_path@)) && final(self).view() == old(self).view(),
    {
        match self.find(plugin_id, mount_path) {
            Some(i) => {
                proof {
                    lemma_remove(self.entries@, i as int);
                }
                let mut e = self.entries.remove(i);
                e.roots = roots;
                e.saf_roots = saf_roots;
                proof {
                    lemma_absent(self.entries@, key_of(e));
                    lemma_push(self.entries@, e);
                    assert(old(self).view().remove((plugin_id@, mount_path@)).insert(key_of(e), e) =~= old(
                        self,
                    ).view().insert(key_of(e), e));
                }
                self.entries.push(e);
                Ok(())
            },
            None => Err(not_found(plugin_id, mount_path)),
        }
    }

    /// Removes a mount and cancels its upload sessions; returns the cancelled
    /// sessions (whose part files the caller deletes).
    pub fn unmount(&mut self, sessions: &mut UploadSessionManager, plugin_id: &str, mount_path: &str) -> (r: Result<Vec<UploadSession>, AppError>)
        requires
            old(self).wf(),
            old(sessions).wf(),
        ensures
            final(self).wf(),
            final(sessions).wf(),
            old(self).view().contains_key((plugin_id@, mount_path@)) ==> {
                &&& r matches Ok(v) && v@ == old(sessions).sessions().filter(|s: UploadSession| s.owned_by(plugin_id@, mount_path@))
                &&& final(self).view() == old(self).view().remove((plugin_id@, mount_path@))
                &&& final(sessions).sessions() == old(sessions).sessions().filter(|s: UploadSession| !s.owned_by(plugin_id@, mount_path@))
            },
            !old(self).view().contains_key((plugin_id@, mount_path@)) ==> {
                &&& r matches Err(AppError::NotFound(m)) && m@ == not_found_message(plugin_id@, mount_path@)
                &&& final(self).view() == old(self).view()
                &&& final(sessions).sessions() == old(sessions).sessions()
            },
    {
        match self.find(plugin_id, mount_path) {
            Some(i) => {
                proof {
                    lemma_remove(self.entries@, i as int);
                }
                let _ = self.entries.remove(i);
                Ok(sessions.cancel_for_mount(plugin_id, mount_path))
            },
            None => Err(not_found(plugin_id, mount_path)),
        }
    }

    /// Removes every mount of a plugin (deactivation) and cancels their
    /// sessions; returns the removed mount names in table order.
    pub fn unmount_plugin(&mut self, sessions: &mut UploadSessionManager, plugin_id: &str) -> (removed: Vec<String>)
        requires
            old(self).wf(),
            old(sessions).wf(),
        ensures
            final(self).wf(),
            final(sessions).wf(),
            final(self).entries() == old(self).entries().filter(|e: MountEntry| e.plugin_id@ != plugin_id@),
            removed@.map_values(|m: String| m@) == old(self).entries().filter(|e: MountEntry| e.plugin_id@ == plugin_id@).map_values(
                |e: MountEntry| e.mount_path@,
            ),
            final(sessions).sessions() == old(sessions).sessions().filter(excluded(plugin_id@, removed@.map_values(|m: String| m@))),
    {
        let ghost orig = self.entries@;
        let ghost keep = |e: MountEntry| e.plugin_id@ != plugin_id@;
        let ghost drop = |e: MountEntry| e.plugin_id@ == plugin_id@;
        let mut src: Vec<MountEntry> = Vec::new();
        std::mem::swap(&mut src, &mut self.entries);
        let mut kept: Vec<MountEntry> = Vec::new();
        let mut removed: Vec<String> = Vec::new();
        let ghost sess0 = sessions.sessions();
        let ghost mut i: int = 0;
        proof {
            reveal(Seq::filter);
            assert(orig.take(0) =~= Seq::<MountEntry>::empty());
            assert(removed@.map_values(|m: String| m@) =~= Seq::<Seq<char>>::empty());
            lemma_filter_all(sess0, excluded(plugin_id@, removed@.map_values(|m: String| m@)));
        }
        while src.len() > 0
            invariant
                0 <= i <= orig.len(),
                src@ == orig.skip(i),
                keys_unique(orig),
                keep == (|e: MountEntry| e.plugin_id@ != plugin_id@),
                drop == (|e: MountEntry| e.plugin_id@ == plugin_id@),
                kept@ == orig.take(i).filter(keep),
                removed@.map_values(|m: String| m@) == orig.take(i).filter(drop).map_values(|e: MountEntry| e.mount_path@),
                forall|k: int| 0 <= k < kept@.len() ==> exists|j: int| 0 <= j < i && #[trigger] kept@[k] == orig[j],
                keys_unique(kept@),
                sessions.wf(),
                sessions.sessions() == sess0.filter(excluded(plugin_id@, removed@.map_values(|m: String| m@))),
            decreases src@.len(),
        {
            let e = src.remove(0);
            proof {
                assert(e == orig[i]);
                assert(orig.take(i + 1).drop_last() =~= orig.take(i));
                assert(orig.take(i + 1).last() == orig[i]);
                reveal(Seq::filter);
                assert(src@ =~= orig.skip(i + 1));
            }
            if str_eq(e.plugin_id.as_str(), plugin_id) {
                let ghost r0 = removed@;
                let ghost s1 = sessions.sessions();
                let _ = sessions.cancel_for_mount(plugin_id, e.mount_path.as_str());
                removed.push(e.mount_path);
                proof {
                    assert(removed@.map_values(|m: String| m@) =~= r0.map_values(|m: String| m@).push(removed@.last()@));
                    assert((|s: UploadSession| !s.owned_by(plugin_id@, removed@.last()@)) =~= not_owned(plugin_id@, removed@.last()@));
                    lemma_filter_twice(sess0, plugin_id@, r0.map_values(|m: String| m@), removed@.last()@);
                }
            } else {
                proof {
                    assert forall|k: int| 0 <= k < kept@.len() implies key_of(kept@[k]) != key_of(e) by {
                        let j = choose|j: int| 0 <= j < i && #[trigger] kept@[k] == orig[j];
                        assert(j != i);
                    }
                }
                let ghost before = kept@;
                kept.push(e);
                proof {
                    assert forall|k: int| 0 <= k < kept@.len() implies exists|j: int|
                        0 <= j < i + 1 && #[trigger] kept@[k] == orig[j] by {
                        if k < before.len() {
                            let j = choose|j: int| 0 <= j < i && #[trigger] before[k] == orig[j];
                            assert(kept@[k] == orig[j]);
                        } else {
                            assert(kept@[k] == orig[i]);
                        }
                    }
                }
            }
            proof {
                i = i + 1;
            }
        }
        proof {
            assert(orig.take(i) =~= orig);
        }
        self.entries = kept;
        removed
    }

    /// Announcement records of all mounts (in table order).
    pub fn mount_announcements(&self) -> (a: Vec<PeerMountAnnouncement>)
        ensures
            a@.len() == self.entries().len(),
            forall|k: int|
                0 <= k < a@.len() ==> (#[trigger] a@[k]).plugin_id@ == self.entries()[k].plugin_id@ && a@[k].mount_path@
                    == self.entries()[k].mount_path@ && a@[k].operations@ == self.entries()[k].operations@,
    {
        let mut a: Vec<PeerMountAnnouncement> = Vec::new();
        let mut i: usize = 0;
        while i < self.entries.len()
            invariant
                i <= self.entries@.len(),
                a@.len() == i,
                forall|k: int|
                    0 <= k < i ==> (#[trigger] a@[k]).plugin_id@ == self.entries@[k].plugin_id@ && a@[k].mount_path@
                        == self.entries@[k].mount_path@ && a@[k].operations@ == self.entries@[k].operations@,
            decreases self.entries@.len() - i,
        {
            let e = &self.entries[i];
            let ops = copy_ops(e.operations.as_slice());
            a.push(PeerMountAnnouncement { plugin_id: e.plugin_id.clone(), mount_path: e.mount_path.clone(), operations: ops });
            i += 1;
        }
        a
    }

    /// How the upload policy of a mount is asked: an unknown mount and a
    /// mount without hook refuse (fail closed); otherwise its hook answers.
    pub fn hook_route(&self, plugin_id: &str, mount_path: &str) -> (r: HookRoute)
        requires
            self.wf(),
        ensures
            !self.view().contains_key((plugin_id@, mount_path@)) ==> (r matches HookRoute::Decided(d) && denial(
                d,
                "mount not found"@,
            )),
            self.view().contains_key((plugin_id@, mount_path@)) ==> r == (match self.view()[(plugin_id@, mount_path@)].hook {
                HookTarget::Wasm => HookRoute::CallWasm,
                HookTarget::Webview => HookRoute::CallWebview,
                HookTarget::NoHook => r,
            }),
            self.view().contains_key((plugin_id@, mount_path@)) && self.view()[(plugin_id@, mount_path@)].hook
                == HookTarget::NoHook ==> (r matches HookRoute::Decided(d) && denial(d, "mount has no upload hook"@)),
    {
        match self.find(plugin_id, mount_path) {
            None => HookRoute::Decided(UploadHookDecision::deny("mount not found")),
            Some(i) => match self.entries[i].hook {
                HookTarget::NoHook => HookRoute::Decided(UploadHookDecision::deny("mount has no upload hook")),
                HookTarget::Wasm => HookRoute::CallWasm,
                HookTarget::Webview => HookRoute::CallWebview,
            },
        }
    }
}


fn copy_ops(ops: &[FileOperation]) -> (v: Vec<FileOperation>)
    ensures
        v@ == ops@,
{
    let mut v: Vec<FileOperation> = Vec::new();
    let mut i: usize = 0;
    while i < ops.len()
        invariant
            i <= ops@.len(),
            v@ == ops@.take(i as int),
        decreases ops@.len() - i,
    {
        v.push(ops[i]);
        proof {
            assert(ops@.take(i + 1) =~= ops@.take(i as int).push(ops@[i as int]));
        }
        i += 1;
    }
    proof {
        assert(ops@.take(ops@.len() as int) =~= ops@);
    }
    v
}

proof fn lemma_filter_all(s: Seq<UploadSession>, p: spec_fn(UploadSession) -> bool)
    requires
        forall|k: int| 0 <= k < s.len() ==> #[trigger] p(s[k]),
    ensures
        s.filter(p) == s,
    decreases s.len(),
{
    reveal(Seq::filter);
    if s.len() > 0 {
        lemma_filter_all(s.drop_last(), p);
        assert(s.drop_last().push(s.last()) =~= s);
    }
}

/// Sessions not of `plugin` on one of the mounts `ms`.
pub open spec fn excluded(plugin: Seq<char>, ms: Seq<Seq<char>>) -> spec_fn(UploadSession) -> bool {
    |x: UploadSession| !(x.plugin_id@ == plugin && ms.contains(x.mount_path@))
}

/// Sessions not owned by `plugin`/`m`.
pub open spec fn not_owned(plugin: Seq<char>, m: Seq<char>) -> spec_fn(UploadSession) -> bool {
    |x: UploadSession| !x.owned_by(plugin, m)
}

proof fn lemma_filter_twice(s: Seq<UploadSession>, plugin: Seq<char>, ms: Seq<Seq<char>>, m: Seq<char>)
    ensures
        s.filter(excluded(plugin, ms)).filter(not_owned(plugin, m)) == s.filter(excluded(plugin, ms.push(m))),
    decreases s.len(),
{
    reveal(Seq::filter);
    let p1 = excluded(plugin, ms);
    let p2 = not_owned(plugin, m);
    let p3 = excluded(plugin, ms.push(m));
    if s.len() == 0 {
        assert(s.filter(p1) =~= s);
        assert(s.filter(p1).filter(p2) =~= s);
        assert(s.filter(p3) =~= s);
    } else {
        let sp = s.drop_last();
        lemma_filter_twice(sp, plugin, ms, m);
        let x = s.last();
        assert(ms.push(m).contains(x.mount_path@) == (ms.contains(x.mount_path@) || x.mount_path@ == m)) by {
            if ms.contains(x.mount_path@) {
                let j = choose|j: int| 0 <= j < ms.len() && ms[j] == x.mount_path@;
                assert(ms.push(m)[j] == x.mount_path@);
            }
            if x.mount_path@ == m {
                assert(ms.push(m)[ms.len() as int] == m);
            }
            if ms.push(m).contains(x.mount_path@) {
                let j = choose|j: int| 0 <= j < ms.len() + 1 && ms.push(m)[j] == x.mount_path@;
                if j < ms.len() {
                    assert(ms[j] == x.mount_path@);
                }
            }
        }
        assert(p3(x) == (p1(x) && p2(x)));
        let a = sp.filter(p1);
        if p1(x) {
            assert(s.filter(p1) == a.push(x));
            assert(a.push(x).drop_last() =~= a);
            assert(a.push(x).last() == x);
        } else {
            assert(s.filter(p1) == a);
        }
    }
}

/// How a call of a plugin's WASM upload hook ended.
#[derive(Debug, Clone, PartialEq, Eq)]
pub enum WasmHookOutcome {
    /// The export answered with a well-formed decision.
    Answered(UploadHookDecision),
    /// The export answered with something that is not a decision.
    Malformed,
    /// Plugin not loaded or export missing.
    Unavailable,
    /// No answer within the hook timeout.
    TimedOut,
}

/// How a call of a plugin's web-view upload hook ended.
#[derive(Debug, Clone, PartialEq, Eq)]
pub enum WebviewHookOutcome {
    /// No application handle to emit the request through.
    NoAppHandle,
    /// Emitting the request failed.
    EmitFailed,
    /// The web view answered in time.
    Answered(UploadHookDecision),
    /// No answer within the hook timeout.
    TimedOut,
}

/// Decision of a WASM hook call: its answer, else a refusal (fail closed).
pub fn wasm_hook_decision(o: WasmHookOutcome) -> (d: UploadHookDecision)
    ensures
        match o {
            WasmHookOutcome::Answered(a) => d == a,
            WasmHookOutcome::Malformed => denial(d, "invalid upload hook decision"@),
            WasmHookOutcome::Unavailable => denial(d, "upload hook unavailable"@),
            WasmHookOutcome::TimedOut => denial(d, "upload hook timed out"@),
        },
{
    match o {
        WasmHookOutcome::Answered(a) => a,
        WasmHookOutcome::Malformed => UploadHookDecision::deny("invalid upload hook decision"),
        WasmHookOutcome::Unavailable => UploadHookDecision::deny("upload hook unavailable"),
        WasmHookOutcome::TimedOut => UploadHookDecision::deny("upload hook timed out"),
    }
}

/// Decision of a web-view hook call: its answer, else a refusal (fail closed).
pub fn webview_hook_decision(o: WebviewHookOutcome) -> (d: UploadHookDecision)
    ensures
        match o {
            WebviewHookOutcome::Answered(a) => d == a,
            WebviewHookOutcome::NoAppHandle => denial(d, "webview hook unavailable"@),
            WebviewHookOutcome::EmitFailed => denial(d, "webview hook emit failed"@),
            WebviewHookOutcome::TimedOut => denial(d, "webview upload hook timed out"@),
        },
{
    match o {
        WebviewHookOutcome::Answered(a) => a,
        WebviewHookOutcome::NoAppHandle => UploadHookDecision::deny("webview hook unavailable"),
        WebviewHookOutcome::EmitFailed => UploadHookDecision::deny("webview hook emit failed"),
        WebviewHookOutcome::TimedOut => UploadHookDecision::deny("webview upload hook timed out"),
    }
}

/// Web-view hook requests waiting for an answer, by request id. An answer
/// is delivered once, and only while its request waits.
pub struct PendingHookReplies {
    waiting: StringHashSet,
}

impl PendingHookReplies {
    /// Requests waiting for an answer.
    pub closed spec fn waiting(&self) -> Set<Seq<char>> {
        self.waiting@
    }

    /// None waiting.
    pub fn new() -> (p: Self)
        ensures
            p.waiting() == Set::<Seq<char>>::empty(),
    {
        PendingHookReplies { waiting: StringHashSet::new() }
    }

    /// A request was emitted and now waits.
    pub fn register(&mut self, request_id: &str)
        ensures
            final(self).waiting() == old(self).waiting().insert(request_id@),
    {
        self.waiting.insert(request_id.to_owned());
    }

    /// An answer (or a timeout, or a failed emit) for `request_id`: the
    /// request stops waiting; returns whether it was waiting, i.e. whether an
    /// answer is delivered.
    pub fn take(&mut self, request_id: &str) -> (was_waiting: bool)
        ensures
            was_waiting == old(self).waiting().contains(request_id@),
            final(self).waiting() == old(self).waiting().remove(request_id@),
    {
        self.waiting.remove(request_id)
    }
}

/// An answer is delivered at most once: after a request is taken, a second
/// answer for it is refused.
pub proof fn lemma_reply_delivered_once(waiting: Set<Seq<char>>, id: Seq<char>)
    ensures
        !waiting.remove(id).contains(id),
{
}

/// Announce of this device's file service to the desktop.
#[derive(Debug, Clone, PartialEq, Eq)]
pub struct AnnouncePayload {
    /// HTTP port (0: the phone serves none).
    pub port: u16,
    /// Bearer token (empty: none).
    pub token: String,
    /// Device name (empty when unknown).
    pub device_name: String,
    /// Mounts offered.
    pub mounts: Vec<PeerMountAnnouncement>,
}

/// Announce of the current mounts: none without mounts (nothing is sent);
/// port 0 and no token, as the phone listens on no port of its own; the
/// device name when known, else empty.
pub fn announce_payload(mounts: Vec<PeerMountAnnouncement>, device_name: Option<String>) -> (p: Option<AnnouncePayload>)
    ensures
        mounts@.len() == 0 ==> p is None,
        mounts@.len() > 0 ==> (p matches Some(a) && a.port == 0 && a.token@ == Seq::<char>::empty() && a.mounts@
            == mounts@ && a.device_name@ == match device_name {
            Some(n) => n@,
            None => Seq::<char>::empty(),
        }),
{
    if mounts.len() == 0 {
        return None;
    }
    let name = match device_name {
        Some(n) => n,
        None => String::new(),
    };
    Some(AnnouncePayload { port: 0, token: String::new(), device_name: name, mounts })
}

/// Whether a desktop query is answered with an announce (mounts exist and
/// the server runs) rather than a withdraw.
pub fn query_answers_with_announce(mount_count: usize, server_running: bool) -> (b: bool)
    ensures
        b == (mount_count > 0 && server_running),
{
    mount_count > 0 && server_running
}

} // verus!
