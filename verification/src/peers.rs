//! Desktop peer records: what this device knows of the desktop's file
//! service (address, port, token, device name and shared mounts).
//!
//! The desktop announces its service in full (`Announce`) or reports one
//! mount at a time (`FileServiceChanged`); both fold into one record keyed by
//! `desktop:<address of the connection target>`.

use vstd::prelude::*;
use crate::listing::{lemma_name_lt_asym, lemma_name_lt_total, lemma_name_lt_trans, name_less, name_lt};
use crate::text::{concat, str_eq};
use vstd::hash_map::StringHashMap;

verus! {

/// Operation a mount allows.
#[derive(Debug, Clone, Copy, PartialEq, Eq, Structural)]
pub enum FileOperation {
    /// Directory listing.
    List,
    /// File download.
    Download,
    /// File upload.
    Upload,
}

/// One mount shared by a peer.
#[derive(Debug, Clone, PartialEq, Eq)]
pub struct PeerMountAnnouncement {
    /// Owning plugin.
    pub plugin_id: String,
    /// Mount name.
    pub mount_path: String,
    /// Allowed operations.
    pub operations: Vec<FileOperation>,
}

/// A peer's file service.
#[derive(Debug, Clone, PartialEq, Eq)]
pub struct PeerFileService {
    /// Address.
    pub ip: String,
    /// HTTP port.
    pub port: u16,
    /// Bearer token for its HTTP endpoints (empty: none known).
    pub token: String,
    /// Device name (empty: unknown).
    pub device_name: String,
    /// Shared mounts.
    pub mounts: Vec<PeerMountAnnouncement>,
}

/// Prefix of the desktop peer id.
pub const DESKTOP_PEER_PREFIX: &'static str = "desktop:";

/// Peer id of the desktop reached at `address`.
pub fn desktop_peer_id(address: &str) -> (id: String)
    ensures
        id@ == DESKTOP_PEER_PREFIX@ + address@,
{
    concat(DESKTOP_PEER_PREFIX, address)
}

/// The record a first report creates: the connection target's address and
/// port, the host's token, no name and no mounts.
pub open spec fn fresh_peer(address: Seq<char>, port: u16, global_token: Seq<char>, p: PeerFileService) -> bool {
    p.ip@ == address && p.port == port && p.token@ == global_token && p.device_name@ == Seq::<char>::empty()
        && p.mounts@.len() == 0
}

/// Whether mount `m` is `plugin`/`mount`.
pub open spec fn same_mount(m: PeerMountAnnouncement, plugin: Seq<char>, mount: Seq<char>) -> bool {
    m.plugin_id@ == plugin && m.mount_path@ == mount
}

fn owned_copy(s: &str) -> (r: String)
    ensures
        r@ == s@,
{
    s.to_owned()
}

fn fresh(address: &str, port: u16, global_token: &str) -> (p: PeerFileService)
    ensures
        fresh_peer(address@, port, global_token@, p),
{
    PeerFileService {
        ip: owned_copy(address),
        port,
        token: owned_copy(global_token),
        device_name: String::new(),
        mounts: Vec::new(),
    }
}

/// Folds a `FileServiceChanged` report into the desktop record: the address
/// and port become the connection target's, a non-empty host token replaces
/// the stored one, the mount `plugin_id`/`mount_path` is dropped and, when
/// `available`, appended again with `operations`.
pub fn merge_desktop_peer(existing: Option<PeerFileService>, address: &str, target_port: u16, global_token: &str, plugin_id: &str, mount_path: &str, available: bool, operations: &[FileOperation]) -> (p: PeerFileService)
    ensures
        p.ip@ == address@,
        p.port == target_port,
        p.token@ == (if global_token@.len() > 0 {
            global_token@
        } else {
            match existing {
                Some(e) => e.token@,
                None => global_token@,
            }
        }),
        p.device_name@ == (match existing {
            Some(e) => e.device_name@,
            None => Seq::<char>::empty(),
        }),
        ({
            let kept = match existing {
                Some(e) => e.mounts@.filter(|m: PeerMountAnnouncement| !same_mount(m, plugin_id@, mount_path@)),
                None => Seq::<PeerMountAnnouncement>::empty(),
            };
            if available {
                &&& p.mounts@.len() == kept.len() + 1
                &&& p.mounts@.take(kept.len() as int) == kept
                &&& same_mount(p.mounts@.last(), plugin_id@, mount_path@)
                &&& p.mounts@.last().operations@ == operations@
            } else {
                p.mounts@ == kept
            }
        }),
{
    let mut peer = match existing {
        Some(e) => e,
        None => fresh(address, target_port, global_token),
    };
    let ghost start = peer.mounts@;
    peer.ip = owned_copy(address);
    peer.port = target_port;
    if !global_token.is_empty() {
        peer.token = owned_copy(global_token);
    }
    let ghost keep = |m: PeerMountAnnouncement| !same_mount(m, plugin_id@, mount_path@);
    let mut src: Vec<PeerMountAnnouncement> = Vec::new();
    std::mem::swap(&mut src, &mut peer.mounts);
    let mut kept: Vec<PeerMountAnnouncement> = Vec::new();
    let ghost mut i: int = 0;
    proof {
        reveal(Seq::filter);
        assert(start.take(0) =~= Seq::<PeerMountAnnouncement>::empty());
    }
    while src.len() > 0
        invariant
            0 <= i <= start.len(),
            src@ == start.skip(i),
            kept@ == start.take(i).filter(keep),
            keep == (|m: PeerMountAnnouncement| !same_mount(m, plugin_id@, mount_path@)),
        decreases src@.len(),
    {
        let m = src.remove(0);
        proof {
            assert(m == start[i]);
            assert(start.take(i + 1).drop_last() =~= start.take(i));
            reveal(Seq::filter);
            assert(src@ =~= start.skip(i + 1));
        }
        let same = str_eq(m.plugin_id.as_str(), plugin_id) && str_eq(m.mount_path.as_str(), mount_path);
        if !same {
            kept.push(m);
        }
        proof {
            i = i + 1;
        }
    }
    proof {
        assert(start.take(i) =~= start);
    }
    let ghost kept_view = kept@;
    if available {
        let mut ops: Vec<FileOperation> = Vec::new();
        let mut k: usize = 0;
        while k < operations.len()
            invariant
                k <= operations.len(),
                ops@ == operations@.take(k as int),
            decreases operations.len() - k,
        {
            ops.push(operations[k]);
            proof {
                assert(operations@.take(k + 1) =~= operations@.take(k as int).push(operations@[k as int]));
            }
            k += 1;
        }
        proof {
            assert(operations@.take(operations.len() as int) =~= operations@);
        }
        kept.push(PeerMountAnnouncement { plugin_id: owned_copy(plugin_id), mount_path: owned_copy(mount_path), operations: ops });
        proof {
            assert(kept@.take(kept_view.len() as int) =~= kept_view);
        }
    }
    peer.mounts = kept;
    peer
}

/// Applies a full `Announce` to the desktop record: address from the
/// connection target, the announced port, the announced name when not empty,
/// the announced token when not empty (else a non-empty host token), and
/// exactly the announced mounts.
pub fn announced_peer(existing: Option<PeerFileService>, address: &str, target_port: u16, global_token: &str, port: u16, token: String, device_name: String, mounts: Vec<PeerMountAnnouncement>) -> (p: PeerFileService)
    ensures
        p.ip@ == address@,
        p.port == port,
        p.device_name@ == (if device_name@.len() > 0 {
            device_name@
        } else {
            match existing {
                Some(e) => e.device_name@,
                None => Seq::<char>::empty(),
            }
        }),
        p.token@ == (if token@.len() > 0 {
            token@
        } else if global_token@.len() > 0 {
            global_token@
        } else {
            match existing {
                Some(e) => e.token@,
                None => global_token@,
            }
        }),
        p.mounts@ == mounts@,
{
    let mut peer = match existing {
        Some(e) => e,
        None => fresh(address, target_port, global_token),
    };
    peer.ip = owned_copy(address);
    peer.port = port;
    if !device_name.as_str().is_empty() {
        peer.device_name = device_name;
    }
    if !token.as_str().is_empty() {
        peer.token = token;
    } else if !global_token.is_empty() {
        peer.token = owned_copy(global_token);
    }
    peer.mounts = mounts;
    peer
}

/// `a` sorts before `b` by (plugin id, mount path), as tuples of `String`s do.
pub open spec fn mount_lt(a: PeerMountAnnouncement, b: PeerMountAnnouncement) -> bool {
    name_lt(a.plugin_id@, b.plugin_id@) || (a.plugin_id@ == b.plugin_id@ && name_lt(a.mount_path@, b.mount_path@))
}

/// Where a stable insertion puts `x` into `s`: before the first entry that
/// sorts after it.
pub open spec fn insert_pos(s: Seq<PeerMountAnnouncement>, x: PeerMountAnnouncement) -> int
    decreases s.len(),
{
    if s.len() == 0 {
        0
    } else if mount_lt(x, s[0]) {
        0
    } else {
        1 + insert_pos(s.drop_first(), x)
    }
}

/// `s` stably sorted by (plugin id, mount path).
pub open spec fn sorted_mounts(s: Seq<PeerMountAnnouncement>) -> Seq<PeerMountAnnouncement>
    decreases s.len(),
{
    if s.len() == 0 {
        Seq::empty()
    } else {
        let r = sorted_mounts(s.drop_last());
        r.insert(insert_pos(r, s.last()), s.last())
    }
}

/// Same plugin, mount path and operations.
pub open spec fn same_announcement(a: PeerMountAnnouncement, b: PeerMountAnnouncement) -> bool {
    a.plugin_id@ == b.plugin_id@ && a.mount_path@ == b.mount_path@ && a.operations@ == b.operations@
}

/// A new record differs from the stored one: address, port, token, number
/// of mounts, or some mount of the two lists sorted by (plugin id, mount
/// path) differs in plugin, path or operations. The device name does not
/// count.
pub open spec fn peer_changed(old: PeerFileService, new: PeerFileService) -> bool {
    ||| old.ip@ != new.ip@
    ||| old.port != new.port
    ||| old.token@ != new.token@
    ||| old.mounts@.len() != new.mounts@.len()
    ||| exists|i: int|
        0 <= i < old.mounts@.len() && !same_announcement(
            #[trigger] sorted_mounts(old.mounts@)[i],
            sorted_mounts(new.mounts@)[i],
        )
}

proof fn lemma_insert_pos_bounds(s: Seq<PeerMountAnnouncement>, x: PeerMountAnnouncement)
    ensures
        0 <= insert_pos(s, x) <= s.len(),
    decreases s.len(),
{
    if s.len() > 0 {
        lemma_insert_pos_bounds(s.drop_first(), x);
    }
}

proof fn lemma_sorted_len(s: Seq<PeerMountAnnouncement>)
    ensures
        sorted_mounts(s).len() == s.len(),
    decreases s.len(),
{
    if s.len() > 0 {
        lemma_sorted_len(s.drop_last());
        lemma_insert_pos_bounds(sorted_mounts(s.drop_last()), s.last());
    }
}

fn mount_less(a: &PeerMountAnnouncement, b: &PeerMountAnnouncement) -> (r: bool)
    ensures
        r == mount_lt(*a, *b),
{
    name_less(a.plugin_id.as_str(), b.plugin_id.as_str()) || (str_eq(a.plugin_id.as_str(), b.plugin_id.as_str())
        && name_less(a.mount_path.as_str(), b.mount_path.as_str()))
}

/// Indices of `ms` in stably sorted order.
fn sorted_order(ms: &[PeerMountAnnouncement]) -> (idx: Vec<usize>)
    ensures
        idx@.len() == ms@.len(),
        forall|k: int| 0 <= k < idx@.len() ==> #[trigger] idx@[k] < ms@.len(),
        idx@.map_values(|j: usize| ms@[j as int]) == sorted_mounts(ms@),
{
    let mut idx: Vec<usize> = Vec::new();
    let mut i: usize = 0;
    while i < ms.len()
        invariant
            i <= ms@.len(),
            idx@.len() == i,
            forall|k: int| 0 <= k < idx@.len() ==> #[trigger] idx@[k] < i,
            idx@.map_values(|j: usize| ms@[j as int]) == sorted_mounts(ms@.take(i as int)),
        decreases ms@.len() - i,
    {
        let ghost sorted = sorted_mounts(ms@.take(i as int));
        let ghost x = ms@[i as int];
        proof {
            lemma_sorted_len(ms@.take(i as int));
            assert(sorted.skip(0) =~= sorted);
        }
        let mut p: usize = 0;
        while p < idx.len() && !mount_less(&ms[i], &ms[idx[p]])
            invariant
                p <= idx@.len(),
                idx@.len() == sorted.len(),
                forall|k: int| 0 <= k < idx@.len() ==> #[trigger] idx@[k] < i,
                i < ms@.len(),
                x == ms@[i as int],
                idx@.map_values(|j: usize| ms@[j as int]) == sorted,
                insert_pos(sorted, x) == p + insert_pos(sorted.skip(p as int), x),
            decreases idx@.len() - p,
        {
            proof {
                assert(sorted[p as int] == ms@[idx@[p as int] as int]);
                assert(sorted.skip(p as int).drop_first() =~= sorted.skip(p + 1));
                assert(sorted.skip(p as int)[0] == sorted[p as int]);
            }
            p += 1;
        }
        proof {
            if p < idx@.len() {
                assert(sorted[p as int] == ms@[idx@[p as int] as int]);
                assert(sorted.skip(p as int)[0] == sorted[p as int]);
            }
            assert(insert_pos(sorted, x) == p);
            assert(ms@.take(i + 1).drop_last() =~= ms@.take(i as int));
            assert(ms@.take(i + 1).last() == x);
        }
        let ghost before = idx@;
        idx.insert(p, i);
        proof {
            assert(idx@ == before.insert(p as int, i));
            assert(idx@.map_values(|j: usize| ms@[j as int]) =~= sorted.insert(p as int, x));
        }
        i += 1;
    }
    proof {
        assert(ms@.take(ms@.len() as int) =~= ms@);
    }
    idx
}

fn ops_eq(a: &[FileOperation], b: &[FileOperation]) -> (r: bool)
    ensures
        r == (a@ == b@),
{
    if a.len() != b.len() {
        return false;
    }
    let mut k: usize = 0;
    while k < a.len()
        invariant
            a@.len() == b@.len(),
            k <= a@.len(),
            forall|j: int| 0 <= j < k ==> a@[j] == b@[j],
        decreases a@.len() - k,
    {
        if a[k] != b[k] {
            return false;
        }
        k += 1;
    }
    proof {
        assert(a@ =~= b@);
    }
    true
}

/// Whether a new record of a peer differs from the stored one (see
/// [`peer_changed`]); an unchanged record is not announced again.
pub fn peer_info_changed(old: &PeerFileService, new: &PeerFileService) -> (r: bool)
    ensures
        r == peer_changed(*old, *new),
{
    if !str_eq(old.ip.as_str(), new.ip.as_str()) || old.port != new.port || !str_eq(
        old.token.as_str(),
        new.token.as_str(),
    ) {
        return true;
    }
    if old.mounts.len() != new.mounts.len() {
        return true;
    }
    let io = sorted_order(old.mounts.as_slice());
    let inew = sorted_order(new.mounts.as_slice());
    let ghost so = sorted_mounts(old.mounts@);
    let ghost sn = sorted_mounts(new.mounts@);
    let mut k: usize = 0;
    while k < io.len()
        invariant
            io@.len() == old.mounts@.len(),
            inew@.len() == new.mounts@.len(),
            old.mounts@.len() == new.mounts@.len(),
            k <= io@.len(),
            forall|j: int| 0 <= j < io@.len() ==> #[trigger] io@[j] < old.mounts@.len(),
            forall|j: int| 0 <= j < inew@.len() ==> #[trigger] inew@[j] < new.mounts@.len(),
            so == sorted_mounts(old.mounts@),
            sn == sorted_mounts(new.mounts@),
            io@.map_values(|j: usize| old.mounts@[j as int]) == so,
            inew@.map_values(|j: usize| new.mounts@[j as int]) == sn,
            forall|j: int| 0 <= j < k ==> same_announcement(#[trigger] so[j], sn[j]),
        decreases io@.len() - k,
    {
        let a = &old.mounts[io[k]];
        let b = &new.mounts[inew[k]];
        proof {
            assert(so[k as int] == old.mounts@[io@[k as int] as int]);
            assert(sn[k as int] == new.mounts@[inew@[k as int] as int]);
        }
        if !str_eq(a.plugin_id.as_str(), b.plugin_id.as_str()) || !str_eq(a.mount_path.as_str(), b.mount_path.as_str())
            || !ops_eq(a.operations.as_slice(), b.operations.as_slice()) {
            proof {
                assert(!same_announcement(so[k as int], sn[k as int]));
            }
            return true;
        }
        k += 1;
    }
    false
}

/// Online/offline notice for a peer, with the stored name and address
/// (empty without a record).
#[derive(Debug, Clone, PartialEq, Eq)]
pub struct PeerChangedEvent {
    /// Peer id.
    pub peer_id: String,
    /// Whether the peer is online.
    pub online: bool,
    /// Stored device name.
    pub device_name: String,
    /// Stored address.
    pub ip: String,
}

/// The file services of known peers, by peer id.
pub struct PeerTable {
    peers: StringHashMap<PeerFileService>,
}

impl View for PeerTable {
    type V = Map<Seq<char>, PeerFileService>;

    closed spec fn view(&self) -> Self::V {
        self.peers@
    }
}

impl PeerTable {
    /// No peers.
    pub fn new() -> (t: Self)
        ensures
            t@ == Map::<Seq<char>, PeerFileService>::empty(),
    {
        PeerTable { peers: StringHashMap::new() }
    }

    /// Records `info` for `peer_id` unless it equals the stored record (see
    /// [`peer_changed`]); returns whether it was recorded, which is when the
    /// peer is announced online.
    pub fn set_peer(&mut self, peer_id: &str, info: PeerFileService) -> (changed: bool)
        ensures
            changed == (!old(self)@.contains_key(peer_id@) || peer_changed(old(self)@[peer_id@], info)),
            changed ==> final(self)@ == old(self)@.insert(peer_id@, info),
            !changed ==> final(self)@ == old(self)@,
    {
        let changed = match self.peers.get(peer_id) {
            Some(old) => peer_info_changed(old, &info),
            None => true,
        };
        if changed {
            self.peers.insert(peer_id.to_owned(), info);
        }
        changed
    }

    /// Records `info` for `peer_id` whatever was stored; the peer is always
    /// announced online.
    pub fn push_peer(&mut self, peer_id: &str, info: PeerFileService)
        ensures
            final(self)@ == old(self)@.insert(peer_id@, info),
    {
        self.peers.insert(peer_id.to_owned(), info);
    }

    /// Drops the record of `peer_id`; returns whether there was one, which is
    /// when the peer is announced offline.
    pub fn remove_peer(&mut self, peer_id: &str) -> (existed: bool)
        ensures
            existed == old(self)@.contains_key(peer_id@),
            final(self)@ == old(self)@.remove(peer_id@),
    {
        let existed = self.peers.contains_key(peer_id);
        self.peers.remove(peer_id);
        existed
    }

    /// The record of `peer_id`.
    pub fn get_peer(&self, peer_id: &str) -> (r: Option<&PeerFileService>)
        ensures
            match r {
                Some(p) => self@.contains_key(peer_id@) && *p == self@[peer_id@],
                None => !self@.contains_key(peer_id@),
            },
    {
        self.peers.get(peer_id)
    }

    /// The notice announcing `peer_id` online or offline, with its stored
    /// name and address when there is a record.
    pub fn peer_changed_event(&self, peer_id: &str, online: bool) -> (e: PeerChangedEvent)
        ensures
            e.peer_id@ == peer_id@,
            e.online == online,
            e.device_name@ == (if self@.contains_key(peer_id@) { self@[peer_id@].device_name@ } else { Seq::empty() }),
            e.ip@ == (if self@.contains_key(peer_id@) { self@[peer_id@].ip@ } else { Seq::empty() }),
    {
        let (device_name, ip) = match self.peers.get(peer_id) {
            Some(p) => (p.device_name.clone(), p.ip.clone()),
            None => (String::new(), String::new()),
        };
        PeerChangedEvent { peer_id: peer_id.to_owned(), online, device_name, ip }
    }
}

/// A record never differs from itself: announcing the same record twice
/// announces it once.
pub proof fn lemma_same_record_unchanged(p: PeerFileService)
    ensures
        !peer_changed(p, p),
{
}

/// Change detection is symmetric.
pub proof fn lemma_peer_changed_symmetric(a: PeerFileService, b: PeerFileService)
    ensures
        peer_changed(a, b) == peer_changed(b, a),
{
    if peer_changed(a, b) && !peer_changed(b, a) {
        let i = choose|i: int|
            0 <= i < a.mounts@.len() && !same_announcement(#[trigger] sorted_mounts(a.mounts@)[i], sorted_mounts(b.mounts@)[i]);
        assert(same_announcement(sorted_mounts(b.mounts@)[i], sorted_mounts(a.mounts@)[i]));
    }
    if peer_changed(b, a) && !peer_changed(a, b) {
        let i = choose|i: int|
            0 <= i < b.mounts@.len() && !same_announcement(#[trigger] sorted_mounts(b.mounts@)[i], sorted_mounts(a.mounts@)[i]);
        assert(same_announcement(sorted_mounts(a.mounts@)[i], sorted_mounts(b.mounts@)[i]));
    }
}

/// Once a record is stored (by a change or a push), setting the same record
/// again is no change: nothing is announced and the table stays as it is.
pub proof fn lemma_set_peer_idempotent(t: Map<Seq<char>, PeerFileService>, id: Seq<char>, p: PeerFileService)
    ensures
        t.insert(id, p).contains_key(id) && !peer_changed(t.insert(id, p)[id], p),
{
    lemma_same_record_unchanged(p);
}

/// Same plugin and mount path.
pub open spec fn same_key(a: PeerMountAnnouncement, b: PeerMountAnnouncement) -> bool {
    a.plugin_id@ == b.plugin_id@ && a.mount_path@ == b.mount_path@
}

/// No (plugin, mount path) pair occurs twice.
pub open spec fn distinct_keys(s: Seq<PeerMountAnnouncement>) -> bool {
    forall|i: int, j: int| 0 <= i < s.len() && 0 <= j < s.len() && i != j ==> !same_key(#[trigger] s[i], #[trigger] s[j])
}

/// No entry sorts strictly before an earlier one.
pub open spec fn mounts_sorted(s: Seq<PeerMountAnnouncement>) -> bool {
    forall|i: int, j: int| 0 <= i < j < s.len() ==> !mount_lt(#[trigger] s[j], #[trigger] s[i])
}

/// Every entry sorts strictly before every later one.
pub open spec fn mounts_strictly_sorted(s: Seq<PeerMountAnnouncement>) -> bool {
    forall|i: int, j: int| 0 <= i < j < s.len() ==> mount_lt(#[trigger] s[i], #[trigger] s[j])
}

proof fn lemma_mount_lt_order(a: PeerMountAnnouncement, b: PeerMountAnnouncement, c: PeerMountAnnouncement)
    ensures
        !mount_lt(a, a),
        mount_lt(a, b) ==> !mount_lt(b, a),
        mount_lt(a, b) && mount_lt(b, c) ==> mount_lt(a, c),
        !same_key(a, b) ==> mount_lt(a, b) || mount_lt(b, a),
{
    lemma_name_lt_total(a.plugin_id@, b.plugin_id@);
    lemma_name_lt_total(a.mount_path@, b.mount_path@);
    lemma_name_lt_asym(a.plugin_id@, b.plugin_id@);
    lemma_name_lt_asym(a.mount_path@, b.mount_path@);
    if mount_lt(a, b) && mount_lt(b, c) {
        if name_lt(a.plugin_id@, b.plugin_id@) && name_lt(b.plugin_id@, c.plugin_id@) {
            lemma_name_lt_trans(a.plugin_id@, b.plugin_id@, c.plugin_id@);
        }
        if a.plugin_id@ == b.plugin_id@ && b.plugin_id@ == c.plugin_id@ {
            lemma_name_lt_trans(a.mount_path@, b.mount_path@, c.mount_path@);
        }
    }
}

proof fn lemma_insert_pos(s: Seq<PeerMountAnnouncement>, x: PeerMountAnnouncement)
    ensures
        0 <= insert_pos(s, x) <= s.len(),
        forall|k: int| 0 <= k < insert_pos(s, x) ==> !mount_lt(x, #[trigger] s[k]),
        insert_pos(s, x) < s.len() ==> mount_lt(x, s[insert_pos(s, x)]),
    decreases s.len(),
{
    if s.len() > 0 && !mount_lt(x, s[0]) {
        let t = s.drop_first();
        lemma_insert_pos(t, x);
        assert forall|k: int| 0 <= k < insert_pos(s, x) implies !mount_lt(x, #[trigger] s[k]) by {
            if k > 0 {
                assert(s[k] == t[k - 1]);
            }
        }
        if insert_pos(s, x) < s.len() {
            assert(s[insert_pos(s, x)] == t[insert_pos(t, x)]);
        }
    }
}

proof fn lemma_sorted_mounts(s: Seq<PeerMountAnnouncement>)
    ensures
        mounts_sorted(sorted_mounts(s)),
        sorted_mounts(s).to_multiset() == s.to_multiset(),
        distinct_keys(s) ==> mounts_strictly_sorted(sorted_mounts(s)),
    decreases s.len(),
{
    broadcast use vstd::seq_lib::group_to_multiset_ensures;

    if s.len() == 0 {
        assert(sorted_mounts(s) =~= s);
    } else {
        let init = s.drop_last();
        let x = s.last();
        let r = sorted_mounts(init);
        lemma_sorted_mounts(init);
        lemma_insert_pos(r, x);
        let p = insert_pos(r, x);
        let out = r.insert(p, x);
        assert(sorted_mounts(s) == out);
        assert(init.push(x) =~= s);
        assert forall|i: int, j: int| 0 <= i < j < out.len() implies !mount_lt(#[trigger] out[j], #[trigger] out[i]) by {
            if i < p && j < p {
                assert(out[i] == r[i] && out[j] == r[j]);
            } else if i < p && j == p {
            } else if i < p {
                assert(out[i] == r[i] && out[j] == r[j - 1]);
            } else if i == p {
                assert(out[j] == r[j - 1]);
                lemma_mount_lt_order(r[j - 1], x, r[p]);
                lemma_mount_lt_order(x, r[p], x);
            } else {
                assert(out[i] == r[i - 1] && out[j] == r[j - 1]);
            }
        }
        if distinct_keys(s) {
            assert(distinct_keys(init)) by {
                assert forall|a: int, b: int| 0 <= a < init.len() && 0 <= b < init.len() && a != b implies !same_key(
                    #[trigger] init[a],
                    #[trigger] init[b],
                ) by {
                    assert(init[a] == s[a] && init[b] == s[b]);
                }
            }
            assert forall|k: int| 0 <= k < r.len() implies !same_key(#[trigger] r[k], x) by {
                assert(r.to_multiset().count(r[k]) > 0);
                assert(init.contains(r[k]));
                let m = choose|m: int| 0 <= m < init.len() && init[m] == r[k];
                assert(s[m] == init[m]);
                assert(s[s.len() - 1] == x);
            }
            assert forall|i: int, j: int| 0 <= i < j < out.len() implies mount_lt(#[trigger] out[i], #[trigger] out[j]) by {
                if i < p && j < p {
                    assert(out[i] == r[i] && out[j] == r[j]);
                } else if i < p && j == p {
                    lemma_mount_lt_order(r[i], x, x);
                } else if i < p {
                    assert(out[i] == r[i] && out[j] == r[j - 1]);
                } else if i == p {
                    assert(out[j] == r[j - 1]);
                    if j - 1 > p {
                        lemma_mount_lt_order(x, r[p], r[j - 1]);
                    }
                } else {
                    assert(out[i] == r[i - 1] && out[j] == r[j - 1]);
                }
            }
        }
    }
}

proof fn lemma_sorted_unique(a: Seq<PeerMountAnnouncement>, b: Seq<PeerMountAnnouncement>)
    requires
        mounts_strictly_sorted(a),
        mounts_sorted(b),
        a.to_multiset() == b.to_multiset(),
    ensures
        a == b,
    decreases a.len(),
{
    broadcast use vstd::seq_lib::group_to_multiset_ensures;

    vstd::seq_lib::to_multiset_len(a);
    vstd::seq_lib::to_multiset_len(b);
    if a.len() == 0 {
        assert(b.len() == 0);
        assert(a =~= b);
    } else {
        vstd::seq_lib::to_multiset_len(a);
        vstd::seq_lib::to_multiset_len(b);
        assert(b.len() == a.len());
        assert(a.to_multiset().count(a[0]) > 0);
        assert(b.contains(a[0]));
        let j = choose|j: int| 0 <= j < b.len() && b[j] == a[0];
        assert(b.to_multiset().count(b[0]) > 0);
        assert(a.contains(b[0]));
        let i = choose|i: int| 0 <= i < a.len() && a[i] == b[0];
        if i > 0 && j > 0 {
            assert(mount_lt(a[0], a[i]));
            assert(!mount_lt(b[j], b[0]));
        }
        assert(a[0] == b[0]);
        assert(a.remove(0) =~= a.drop_first());
        assert(b.remove(0) =~= b.drop_first());
        let ta = a.drop_first();
        let tb = b.drop_first();
        assert(mounts_strictly_sorted(ta)) by {
            assert forall|x: int, y: int| 0 <= x < y < ta.len() implies mount_lt(#[trigger] ta[x], #[trigger] ta[y]) by {
                assert(ta[x] == a[x + 1] && ta[y] == a[y + 1]);
            }
        }
        assert(mounts_sorted(tb)) by {
            assert forall|x: int, y: int| 0 <= x < y < tb.len() implies !mount_lt(#[trigger] tb[y], #[trigger] tb[x]) by {
                assert(tb[x] == b[x + 1] && tb[y] == b[y + 1]);
            }
        }
        lemma_sorted_unique(ta, tb);
        assert forall|k: int| 0 <= k < a.len() implies a[k] == b[k] by {
            if k > 0 {
                assert(a[k] == ta[k - 1]);
                assert(b[k] == tb[k - 1]);
            }
        }
        assert(a =~= b);
    }
}

/// Announcing the same mounts in another order is no change: two records
/// with the same address, port and token whose mount lists hold the same
/// announcements, none for the same plugin and path twice, do not differ.
pub proof fn lemma_mount_order_irrelevant(old: PeerFileService, new: PeerFileService)
    requires
        old.ip@ == new.ip@,
        old.port == new.port,
        old.token@ == new.token@,
        distinct_keys(old.mounts@),
        old.mounts@.to_multiset() == new.mounts@.to_multiset(),
    ensures
        !peer_changed(old, new),
{
    broadcast use vstd::seq_lib::group_to_multiset_ensures;

    lemma_sorted_mounts(old.mounts@);
    lemma_sorted_mounts(new.mounts@);
    lemma_sorted_unique(sorted_mounts(old.mounts@), sorted_mounts(new.mounts@));
    vstd::seq_lib::to_multiset_len(old.mounts@);
    vstd::seq_lib::to_multiset_len(new.mounts@);
}

} // verus!
