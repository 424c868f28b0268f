//! Server-side upload sessions.
//!
//! `POST upload` creates a session, `PUT` appends from the byte count the
//! server holds, `POST complete` moves the part file to its target and
//! `DELETE` cancels. The part file lives next to the target
//! (`.bedcode-upload-{id}.part`) so the final rename stays on one volume.
//!
//! The table is keyed by session id; every access is checked against the
//! owning plugin and mount. File system work (writing chunks, renaming,
//! removing part files) is the caller's: the table says what to do and
//! records the result. Times are Unix milliseconds supplied by the caller.

use vstd::prelude::*;
use crate::message::generate_message_id;
use crate::paths::{UPLOAD_PART_PREFIX, UPLOAD_PART_SUFFIX};
use crate::saf_tree::join_path;
use crate::client::{expected_offset_of, first_sub_at};
use crate::server::{decimal, decimal_string, lemma_decimal_round_trip, lemma_parse_decimal};
use crate::text::{chars_of, concat, digit_prefix, is_digit, is_ws, lower, lower_char, seq_contains, str_eq, strip_all_prefix, trim_ws_start};

verus! {

/// Idle time after which a session is swept (24 hours).
pub const SESSION_TTL_MS: u64 = 86_400_000;

/// Interval of the background sweep (one hour).
pub const SWEEP_INTERVAL_MS: u64 = 3_600_000;

/// Upload session failure (mapped to HTTP statuses by the server).
#[derive(Debug, Clone, PartialEq, Eq)]
pub enum UploadSessionError {
    /// No such session (expired, cancelled, never created, or not the caller's).
    NotFound(String),
    /// The append offset differs from the received byte count (HTTP 409).
    OffsetMismatch { expected: u64, got: u64 },
    /// The target exists at completion (HTTP 409 duplicate-name); the part file stays.
    DuplicateName(String),
    /// Underlying I/O failure.
    Io(String),
}

/// Text of an offset mismatch: "offset mismatch: server has {expected}
/// bytes, client sent offset {got}".
pub open spec fn offset_mismatch_text(expected: u64, got: u64) -> Seq<char> {
    "offset mismatch: server has "@ + decimal(expected as nat) + " bytes, client sent offset "@ + decimal(got as nat)
}

/// Text of an upload session failure (the message of its HTTP answer).
pub open spec fn session_error_text(e: UploadSessionError) -> Seq<char> {
    match e {
        UploadSessionError::NotFound(s) => "upload session not found: "@ + s@,
        UploadSessionError::OffsetMismatch { expected, got } => offset_mismatch_text(expected, got),
        UploadSessionError::DuplicateName(p) => "target file already exists: "@ + p@,
        UploadSessionError::Io(m) => "upload session io failed: "@ + m@,
    }
}

impl UploadSessionError {
    /// Text of the failure.
    pub fn message(&self) -> (m: String)
        ensures
            m@ == session_error_text(*self),
    {
        match self {
            UploadSessionError::NotFound(s) => concat("upload session not found: ", s.as_str()),
            UploadSessionError::OffsetMismatch { expected, got } => {
                let a = concat("offset mismatch: server has ", decimal_string(*expected).as_str());
                let b = concat(a.as_str(), " bytes, client sent offset ");
                concat(b.as_str(), decimal_string(*got).as_str())
            },
            UploadSessionError::DuplicateName(p) => concat("target file already exists: ", p.as_str()),
            UploadSessionError::Io(m) => concat("upload session io failed: ", m.as_str()),
        }
    }
}

proof fn lemma_first_sub_unique(hay: Seq<char>, needle: Seq<char>, i: int, j: int)
    requires
        first_sub_at(hay, needle, i),
        first_sub_at(hay, needle, j),
    ensures
        i == j,
{
    if i < j {
        assert(hay.subrange(i, i + needle.len()) == needle);
    } else if j < i {
        assert(hay.subrange(j, j + needle.len()) == needle);
    }
}

/// What the server says of an offset mismatch, the client reads back: the
/// received count it quotes is the one the client extracts to resume from.
pub proof fn lemma_offset_mismatch_read_back(expected: u64, got: u64)
    ensures
        expected_offset_of(offset_mismatch_text(expected, got)) == Some(expected),
{
    reveal_strlit("offset mismatch: server has ");
    reveal_strlit(" bytes, client sent offset ");
    reveal_strlit("has");
    reveal_strlit("bytes:");
    let p = "offset mismatch: server has "@;
    let q = " bytes, client sent offset "@;
    let de = decimal(expected as nat);
    let dg = decimal(got as nat);
    lemma_decimal_round_trip(expected as nat);
    lemma_decimal_round_trip(got as nat);
    let t = offset_mismatch_text(expected, got);
    assert(t == p + de + q + dg);
    // lowercasing changes nothing
    assert forall|k: int| 0 <= k < t.len() implies lower_char(#[trigger] t[k]) == t[k] by {
        if k < p.len() {
            assert(t[k] == p[k]);
        } else if k < p.len() + de.len() {
            assert(t[k] == de[k - p.len()]);
            assert(is_digit(de[k - p.len()]));
        } else if k < p.len() + de.len() + q.len() {
            assert(t[k] == q[k - p.len() - de.len()]);
        } else {
            assert(t[k] == dg[k - p.len() - de.len() - q.len()]);
            assert(is_digit(dg[k - p.len() - de.len() - q.len()]));
        }
    }
    assert(lower(t) =~= t);
    let l = lower(t);
    // the first "has" starts at 24
    assert(l.subrange(24, 27) =~= "has"@);
    assert forall|j: int| 0 <= j < 24 implies #[trigger] l.subrange(j, j + 3) != "has"@ by {
        if l.subrange(j, j + 3) == "has"@ {
            assert(l.subrange(j, j + 3)[0] == 'h');
            assert(l[j] == 'h');
            assert(l.subrange(j, j + 3)[1] == 'a');
            assert(l[j + 1] == 'a');
            assert(p[j] == 'h' && p[j + 1] == 'a');
        }
    }
    assert(first_sub_at(l, "has"@, 24));
    assert(seq_contains(l, "has"@));
    let i = choose|i: int| first_sub_at(l, "has"@, i);
    lemma_first_sub_unique(l, "has"@, i, 24);
    // what follows "has": a space, the digits, then " bytes"
    let rest = l.skip(27);
    assert(rest =~= seq![' '] + de + q + dg);
    assert(is_ws(rest[0]));
    assert(rest.drop_first() =~= de + q + dg);
    assert(!is_ws(de[0]));
    assert(trim_ws_start(rest) == trim_ws_start(de + q + dg));
    assert((de + q + dg)[0] == de[0]);
    assert(trim_ws_start(de + q + dg) == de + q + dg);
    assert(strip_all_prefix(de + q + dg, "bytes:"@) == de + q + dg) by {
        assert((de + q + dg)[0] != 'b');
        if crate::text::seq_starts_with(de + q + dg, "bytes:"@) {
            assert((de + q + dg).subrange(0, 6)[0] == 'b');
        }
    }
    assert(digit_prefix(de + q + dg) == de) by {
        lemma_digit_prefix_stops(de, q + dg);
        assert(de + q + dg =~= de + (q + dg));
    }
    lemma_parse_decimal(expected);
}

proof fn lemma_digit_prefix_stops(d: Seq<char>, r: Seq<char>)
    requires
        forall|i: int| 0 <= i < d.len() ==> is_digit(#[trigger] d[i]),
        r.len() > 0,
        !is_digit(r[0]),
    ensures
        digit_prefix(d + r) == d,
    decreases d.len(),
{
    if d.len() == 0 {
        assert(d + r =~= r);
    } else {
        assert((d + r).drop_first() =~= d.drop_first() + r);
        lemma_digit_prefix_stops(d.drop_first(), r);
        assert(seq![d[0]] + d.drop_first() =~= d);
    }
}

/// Result of placing a finished upload in the public download collection.
#[derive(Debug, Clone, PartialEq, Eq)]
pub enum PlacementError {
    /// A file of that name already exists there.
    Duplicate(String),
    /// Any other failure (collection unavailable, I/O error).
    Other(String),
}

/// One upload session.
#[derive(Debug, Clone)]
pub struct UploadSession {
    /// Session id (UUID v4 text).
    pub id: String,
    /// Owning plugin.
    pub plugin_id: String,
    /// Owning mount.
    pub mount_path: String,
    /// Final target path.
    pub target: String,
    /// Part file path (next to the target).
    pub tmp: String,
    /// Declared total size.
    pub size: u64,
    /// Bytes received so far.
    pub received: u64,
    /// Last activity (Unix ms).
    pub last_active_ms: u64,
}

/// `std::path::Path::parent` on the text of a path: the path without its
/// last component, none for a root or empty path.
pub uninterp spec fn path_parent_spec(p: Seq<char>) -> Option<Seq<char>>;

/// `Path::new(p).parent()`, as text. Its result is named, not described.
#[verifier::external_body]
fn path_parent(p: &str) -> (r: Option<String>)
    ensures
        r matches Some(d) ==> path_parent_spec(p@) == Some(d@),
        r is None ==> path_parent_spec(p@) is None,
{
    std::path::Path::new(p).parent().map(|d| d.to_string_lossy().into_owned())
}

/// Part file name of session `id`.
pub open spec fn part_name(id: Seq<char>) -> Seq<char> {
    UPLOAD_PART_PREFIX@ + id + UPLOAD_PART_SUFFIX@
}

impl UploadSession {
    /// Owned by this plugin and mount.
    pub open spec fn owned_by(&self, plugin: Seq<char>, mount: Seq<char>) -> bool {
        self.plugin_id@ == plugin && self.mount_path@ == mount
    }

    /// Idle for longer than the TTL at `now_ms` (a clock that went back counts as no idle time).
    pub open spec fn expired_at(&self, now_ms: u64) -> bool {
        now_ms > self.last_active_ms && now_ms - self.last_active_ms > SESSION_TTL_MS
    }

    /// An equal copy.
    pub fn snapshot(&self) -> (c: Self)
        ensures
            c == *self,
    {
        UploadSession {
            id: self.id.clone(),
            plugin_id: self.plugin_id.clone(),
            mount_path: self.mount_path.clone(),
            target: self.target.clone(),
            tmp: self.tmp.clone(),
            size: self.size,
            received: self.received,
            last_active_ms: self.last_active_ms,
        }
    }

    fn owned(&self, plugin_id: &str, mount_path: &str) -> (r: bool)
        ensures
            r == self.owned_by(plugin_id@, mount_path@),
    {
        str_eq(self.plugin_id.as_str(), plugin_id) && str_eq(self.mount_path.as_str(), mount_path)
    }
}

/// Slot `i` of `s` holds session `sid`.
pub open spec fn slot_of(s: Seq<UploadSession>, i: int, sid: Seq<char>) -> bool {
    0 <= i < s.len() && s[i].id@ == sid
}

/// No two slots share an id.
pub open spec fn ids_unique(s: Seq<UploadSession>) -> bool {
    forall|i: int, j: int| 0 <= i < s.len() && 0 <= j < s.len() && i != j ==> s[i].id@ != s[j].id@
}

/// The sessions of `s` by id.
pub open spec fn session_map(s: Seq<UploadSession>) -> Map<Seq<char>, UploadSession> {
    Map::new(
        |k: Seq<char>| exists|i: int| #[trigger] slot_of(s, i, k),
        |k: Seq<char>| s[choose|i: int| #[trigger] slot_of(s, i, k)],
    )
}

/// The session `sid` if `plugin`/`mount` own it.
pub open spec fn owned_lookup(m: Map<Seq<char>, UploadSession>, sid: Seq<char>, plugin: Seq<char>, mount: Seq<char>) -> Option<UploadSession> {
    if m.contains_key(sid) && m[sid].owned_by(plugin, mount) {
        Some(m[sid])
    } else {
        None
    }
}

proof fn lemma_map_at(s: Seq<UploadSession>, i: int)
    requires
        ids_unique(s),
        0 <= i < s.len(),
    ensures
        session_map(s).contains_key(s[i].id@),
        session_map(s)[s[i].id@] == s[i],
{
    let k = s[i].id@;
    assert(slot_of(s, i, k));
    let j = choose|j: int| #[trigger] slot_of(s, j, k);
    assert(j == i);
}

proof fn lemma_map_absent(s: Seq<UploadSession>, k: Seq<char>)
    requires
        forall|i: int| 0 <= i < s.len() ==> s[i].id@ != k,
    ensures
        !session_map(s).contains_key(k),
{
    if exists|i: int| #[trigger] slot_of(s, i, k) {
        let i = choose|i: int| #[trigger] slot_of(s, i, k);
        assert(s[i].id@ != k);
    }
}

proof fn lemma_map_push(s: Seq<UploadSession>, x: UploadSession)
    requires
        ids_unique(s),
        forall|i: int| 0 <= i < s.len() ==> s[i].id@ != x.id@,
    ensures
        ids_unique(s.push(x)),
        session_map(s.push(x)) == session_map(s).insert(x.id@, x),
{
    let t = s.push(x);
    assert(ids_unique(t));
    lemma_map_at(t, s.len() as int);
    assert forall|k: Seq<char>| #[trigger] session_map(t).contains_key(k) == session_map(s).insert(
        x.id@,
        x,
    ).contains_key(k) by {
        if exists|i: int| #[trigger] slot_of(t, i, k) {
            let i = choose|i: int| #[trigger] slot_of(t, i, k);
            if i < s.len() {
                assert(slot_of(s, i, k));
            }
        }
        if exists|i: int| #[trigger] slot_of(s, i, k) {
            let i = choose|i: int| #[trigger] slot_of(s, i, k);
            assert(slot_of(t, i, k));
        }
    }
    assert forall|k: Seq<char>| #[trigger] session_map(t).contains_key(k) implies session_map(t)[k]
        == session_map(s).insert(x.id@, x)[k] by {
        if k != x.id@ {
            let i = choose|i: int| #[trigger] slot_of(t, i, k);
            assert(i < s.len());
            lemma_map_at(t, i);
            lemma_map_at(s, i);
        }
    }
    assert(session_map(t) =~= session_map(s).insert(x.id@, x));
}

proof fn lemma_map_update(s: Seq<UploadSession>, j: int, x: UploadSession)
    requires
        ids_unique(s),
        0 <= j < s.len(),
        s[j].id@ == x.id@,
    ensures
        ids_unique(s.update(j, x)),
        session_map(s.update(j, x)) == session_map(s).insert(x.id@, x),
{
    let t = s.update(j, x);
    assert(ids_unique(t));
    lemma_map_at(t, j);
    assert forall|k: Seq<char>| #[trigger] session_map(t).contains_key(k) == session_map(s).insert(
        x.id@,
        x,
    ).contains_key(k) by {
        if exists|i: int| #[trigger] slot_of(t, i, k) {
            let i = choose|i: int| #[trigger] slot_of(t, i, k);
            assert(slot_of(s, i, k));
        }
        if exists|i: int| #[trigger] slot_of(s, i, k) {
            let i = choose|i: int| #[trigger] slot_of(s, i, k);
            assert(slot_of(t, i, k));
        }
    }
    assert forall|k: Seq<char>| #[trigger] session_map(t).contains_key(k) implies session_map(t)[k]
        == session_map(s).insert(x.id@, x)[k] by {
        if k != x.id@ {
            let i = choose|i: int| #[trigger] slot_of(t, i, k);
            assert(i != j);
            lemma_map_at(t, i);
            lemma_map_at(s, i);
        }
    }
    assert(session_map(t) =~= session_map(s).insert(x.id@, x));
}

proof fn lemma_map_remove(s: Seq<UploadSession>, j: int)
    requires
        ids_unique(s),
        0 <= j < s.len(),
    ensures
        ids_unique(s.remove(j)),
        session_map(s.remove(j)) == session_map(s).remove(s[j].id@),
{
    let t = s.remove(j);
    let r = s[j].id@;
    assert forall|a: int, b: int| 0 <= a < t.len() && 0 <= b < t.len() && a != b implies t[a].id@ != t[b].id@ by {
        let a2 = if a < j { a } else { a + 1 };
        let b2 = if b < j { b } else { b + 1 };
        assert(t[a] == s[a2] && t[b] == s[b2]);
    }
    assert forall|k: Seq<char>| #[trigger] session_map(t).contains_key(k) == session_map(s).remove(
        r,
    ).contains_key(k) by {
        if exists|i: int| #[trigger] slot_of(t, i, k) {
            let i = choose|i: int| #[trigger] slot_of(t, i, k);
            let i2 = if i < j { i } else { i + 1 };
            assert(slot_of(s, i2, k));
            assert(i2 != j);
        }
        if exists|i: int| #[trigger] slot_of(s, i, k) {
            let i = choose|i: int| #[trigger] slot_of(s, i, k);
            if k != r {
                assert(i != j);
                let i2 = if i < j { i } else { i - 1 };
                assert(slot_of(t, i2, k));
            }
        }
    }
    assert forall|k: Seq<char>| #[trigger] session_map(t).contains_key(k) implies session_map(t)[k]
        == session_map(s).remove(r)[k] by {
        let i = choose|i: int| #[trigger] slot_of(t, i, k);
        let i2 = if i < j { i } else { i + 1 };
        lemma_map_at(t, i);
        lemma_map_at(s, i2);
    }
    assert(session_map(t) =~= session_map(s).remove(r));
}

/// Table of upload sessions.
#[derive(Debug)]
pub struct UploadSessionManager {
    sessions: Vec<UploadSession>,
}

impl View for UploadSessionManager {
    type V = Map<Seq<char>, UploadSession>;

    /// The sessions by id.
    open spec fn view(&self) -> Self::V {
        session_map(self.sessions())
    }
}

impl UploadSessionManager {
    /// The sessions, in table order.
    pub closed spec fn sessions(&self) -> Seq<UploadSession> {
        self.sessions@
    }

    /// Session ids are unique.
    pub open spec fn wf(&self) -> bool {
        ids_unique(self.sessions())
    }

    /// An empty table.
    pub fn new() -> (m: Self)
        ensures
            m.wf(),
            m.view() == Map::<Seq<char>, UploadSession>::empty(),
            m.sessions().len() == 0,
    {
        let m = UploadSessionManager { sessions: Vec::new() };
        proof {
            lemma_map_absent_all(m.sessions@);
        }
        m
    }

    /// Number of live sessions.
    pub fn len(&self) -> (n: usize)
        requires
            self.wf(),
        ensures
            n == self.view().len(),
            n == self.sessions().len(),
    {
        proof {
            lemma_map_len(self.sessions@);
        }
        self.sessions.len()
    }

    fn find(&self, sid: &str) -> (r: Option<usize>)
        requires
            self.wf(),
        ensures
            r matches Some(i) ==> slot_of(self.sessions(), i as int, sid@) && self.view().contains_key(sid@)
                && self.view()[sid@] == self.sessions()[i as int],
            r is None ==> !self.view().contains_key(sid@) && forall|i: int|
                0 <= i < self.sessions().len() ==> self.sessions()[i].id@ != sid@,
    {
        let mut i: usize = 0;
        while i < self.sessions.len()
            invariant
                i <= self.sessions@.len(),
                ids_unique(self.sessions@),
                forall|k: int| 0 <= k < i ==> self.sessions@[k].id@ != sid@,
            decreases self.sessions@.len() - i,
        {
            if str_eq(self.sessions[i].id.as_str(), sid) {
                proof {
                    lemma_map_at(self.sessions@, i as int);
                }
                return Some(i);
            }
            i += 1;
        }
        proof {
            lemma_map_absent(self.sessions@, sid@);
        }
        None
    }

    /// Session `sid` if it belongs to `plugin_id`/`mount_path` (another
    /// plugin's session reads as absent).
    pub fn get(&self, sid: &str, plugin_id: &str, mount_path: &str) -> (r: Option<UploadSession>)
        requires
            self.wf(),
        ensures
            r == owned_lookup(self.view(), sid@, plugin_id@, mount_path@),
    {
        match self.find(sid) {
            Some(i) => {
                if self.sessions[i].owned(plugin_id, mount_path) {
                    Some(self.sessions[i].snapshot())
                } else {
                    None
                }
            },
            None => None,
        }
    }

    /// Creates a session for `target` with id `uuid` (callers use
    /// [`Self::create`]). A table entry with the same id is replaced.
    pub fn create_with_id(&mut self, id: String, plugin_id: &str, mount_path: &str, target: &str, size: u64, now_ms: u64) -> (r: Result<UploadSession, UploadSessionError>)
        requires
            old(self).wf(),
        ensures
            final(self).wf(),
            match path_parent_spec(target@) {
                None => {
                    &&& r matches Err(UploadSessionError::Io(m)) && m@ == "upload target '"@ + target@
                        + "' has no parent directory"@
                    &&& final(self).view() == old(self).view()
                },
                Some(dir) => r matches Ok(s) && {
                    &&& s.id == id
                    &&& s.plugin_id@ == plugin_id@
                    &&& s.mount_path@ == mount_path@
                    &&& s.target@ == target@
                    &&& s.tmp@ == join_path(dir, part_name(id@))
                    &&& s.size == size
                    &&& s.received == 0
                    &&& s.last_active_ms == now_ms
                    &&& final(self).view() == old(self).view().insert(id@, s)
                },
            },
    {
        let dir = match path_parent(target) {
            Some(d) => d,
            None => {
                let head = concat("upload target '", target);
                let m = concat(head.as_str(), "' has no parent directory");
                return Err(UploadSessionError::Io(m));
            },
        };
        let n1 = concat(UPLOAD_PART_PREFIX, id.as_str());
        let name = concat(n1.as_str(), UPLOAD_PART_SUFFIX);
        let name_chars = chars_of(name.as_str());
        let tmp = crate::saf_tree::join(dir.as_str(), name_chars.as_slice());
        let session = UploadSession {
            id,
            plugin_id: string_from(plugin_id),
            mount_path: string_from(mount_path),
            target: string_from(target),
            tmp,
            size,
            received: 0,
            last_active_ms: now_ms,
        };
        let snap = session.snapshot();
        self.put(session);
        Ok(snap)
    }

    /// Creates a session with a fresh UUID v4 id. Fails when the target has
    /// no parent directory.
    pub fn create(&mut self, plugin_id: &str, mount_path: &str, target: &str, size: u64, now_ms: u64) -> (r: Result<UploadSession, UploadSessionError>)
        requires
            old(self).wf(),
        ensures
            final(self).wf(),
            match path_parent_spec(target@) {
                None => {
                    &&& r matches Err(UploadSessionError::Io(m)) && m@ == "upload target '"@ + target@
                        + "' has no parent directory"@
                    &&& final(self).view() == old(self).view()
                },
                Some(dir) => r matches Ok(s) && {
                    &&& crate::message::uuid_v4_text(s.id@)
                    &&& s.plugin_id@ == plugin_id@
                    &&& s.mount_path@ == mount_path@
                    &&& s.target@ == target@
                    &&& s.tmp@ == join_path(dir, part_name(s.id@))
                    &&& s.size == size
                    &&& s.received == 0
                    &&& s.last_active_ms == now_ms
                    &&& final(self).view() == old(self).view().insert(s.id@, s)
                },
            },
    {
        let id = generate_message_id();
        self.create_with_id(id, plugin_id, mount_path, target, size, now_ms)
    }

    /// Inserts `s`, replacing an entry with the same id.
    fn put(&mut self, s: UploadSession)
        requires
            old(self).wf(),
        ensures
            final(self).wf(),
            final(self).view() == old(self).view().insert(s.id@, s),
    {
        match self.find(s.id.as_str()) {
            Some(j) => {
                proof {
                    lemma_map_update(self.sessions@, j as int, s);
                }
                self.sessions.set(j, s);
            },
            None => {
                proof {
                    lemma_map_push(self.sessions@, s);
                }
                self.sessions.push(s);
            },
        }
    }

    /// Puts a session taken out for completion back (the rename failed or
    /// the name was taken): its part file stays and the client can query it.
    pub fn restore(&mut self, s: UploadSession)
        requires
            old(self).wf(),
        ensures
            final(self).wf(),
            final(self).view() == old(self).view().insert(s.id@, s),
    {
        self.put(s);
    }

    /// First half of an append: checks ownership and that `offset` is the
    /// received byte count, and returns the part file to write the chunk to.
    pub fn append_target(&self, sid: &str, plugin_id: &str, mount_path: &str, offset: u64) -> (r: Result<String, UploadSessionError>)
        requires
            self.wf(),
        ensures
            match owned_lookup(self.view(), sid@, plugin_id@, mount_path@) {
                None => r matches Err(UploadSessionError::NotFound(m)) && m@ == sid@,
                Some(s) => if offset != s.received {
                    r == Err::<String, UploadSessionError>(
                        UploadSessionError::OffsetMismatch { expected: s.received, got: offset },
                    )
                } else {
                    r matches Ok(p) && p@ == s.tmp@
                },
            },
    {
        match self.get(sid, plugin_id, mount_path) {
            None => Err(UploadSessionError::NotFound(string_from(sid))),
            Some(s) => {
                if offset != s.received {
                    Err(UploadSessionError::OffsetMismatch { expected: s.received, got: offset })
                } else {
                    Ok(s.tmp)
                }
            },
        }
    }

    /// Second half of an append: `written` bytes were appended to the part
    /// file; the count grows by them and the session is marked active.
    /// Returns the new byte count.
    pub fn commit_append(&mut self, sid: &str, plugin_id: &str, mount_path: &str, written: u64, now_ms: u64) -> (r: Result<u64, UploadSessionError>)
        requires
            old(self).wf(),
            owned_lookup(old(self).view(), sid@, plugin_id@, mount_path@) matches Some(s) ==> s.received
                + written <= u64::MAX,
        ensures
            final(self).wf(),
            match owned_lookup(old(self).view(), sid@, plugin_id@, mount_path@) {
                None => r matches Err(UploadSessionError::NotFound(m)) && m@ == sid@ && final(self).view()
                    == old(self).view(),
                Some(s) => r == Ok::<u64, UploadSessionError>((s.received + written) as u64) && final(self).view() == old(self).view().insert(
                    sid@,
                    UploadSession { received: (s.received + written) as u64, last_active_ms: now_ms, ..s },
                ),
            },
    {
        match self.find(sid) {
            Some(i) => {
                if self.sessions[i].owned(plugin_id, mount_path) {
                    let mut s = self.sessions[i].snapshot();
                    s.received = s.received + written;
                    s.last_active_ms = now_ms;
                    let n = s.received;
                    proof {
                        lemma_map_update(self.sessions@, i as int, s);
                    }
                    self.sessions.set(i, s);
                    Ok(n)
                } else {
                    Err(UploadSessionError::NotFound(string_from(sid)))
                }
            },
            None => Err(UploadSessionError::NotFound(string_from(sid))),
        }
    }

    /// Removes session `sid` when `plugin_id` owns it (and, for `mount`, when
    /// `mount_path` does too).
    fn take_owned(&mut self, sid: &str, plugin_id: &str, mount: Option<&str>) -> (r: Option<UploadSession>)
        requires
            old(self).wf(),
        ensures
            final(self).wf(),
            match r {
                Some(s) => {
                    &&& old(self).view().contains_key(sid@)
                    &&& s == old(self).view()[sid@]
                    &&& s.plugin_id@ == plugin_id@
                    &&& (mount matches Some(m) ==> s.mount_path@ == m@)
                    &&& final(self).view() == old(self).view().remove(sid@)
                },
                None => {
                    &&& final(self).view() == old(self).view()
                    &&& !(old(self).view().contains_key(sid@) && old(self).view()[sid@].plugin_id@ == plugin_id@
                        && (mount matches Some(m) ==> old(self).view()[sid@].mount_path@ == m@))
                },
            },
    {
        match self.find(sid) {
            Some(i) => {
                let ok = match mount {
                    Some(m) => self.sessions[i].owned(plugin_id, m),
                    None => str_eq(self.sessions[i].plugin_id.as_str(), plugin_id),
                };
                if ok {
                    proof {
                        lemma_map_remove(self.sessions@, i as int);
                    }
                    Some(self.sessions.remove(i))
                } else {
                    None
                }
            },
            None => None,
        }
    }

    /// Takes a session out for completion. The caller has looked at the file
    /// system: an existing target is a duplicate name and a missing part file
    /// means the session has nothing to complete (both leave the table as it
    /// is). On success the session leaves the table and the caller renames
    /// its part file (or hands it to the media placement); when that fails it
    /// calls [`Self::restore`].
    pub fn take_for_complete(&mut self, sid: &str, plugin_id: &str, mount_path: &str, target_exists: bool, tmp_exists: bool) -> (r: Result<UploadSession, UploadSessionError>)
        requires
            old(self).wf(),
        ensures
            final(self).wf(),
            match owned_lookup(old(self).view(), sid@, plugin_id@, mount_path@) {
                None => r matches Err(UploadSessionError::NotFound(m)) && m@ == sid@ && final(self).view()
                    == old(self).view(),
                Some(s) => if target_exists {
                    r matches Err(UploadSessionError::DuplicateName(t)) && t@ == s.target@ && final(self).view() == old(self).view()
                } else if !tmp_exists {
                    r matches Err(UploadSessionError::NotFound(m)) && m@ == sid@ + " (temp file missing)"@
                        && final(self).view() == old(self).view()
                } else {
                    r == Ok::<UploadSession, UploadSessionError>(s) && final(self).view() == old(self).view().remove(sid@)
                },
            },
    {
        let s = match self.get(sid, plugin_id, mount_path) {
            Some(s) => s,
            None => return Err(UploadSessionError::NotFound(string_from(sid))),
        };
        if target_exists {
            return Err(UploadSessionError::DuplicateName(s.target));
        }
        if !tmp_exists {
            return Err(UploadSessionError::NotFound(concat(sid, " (temp file missing)")));
        }
        match self.take_owned(sid, plugin_id, Some(mount_path)) {
            Some(t) => Ok(t),
            None => Err(UploadSessionError::NotFound(string_from(sid))),
        }
    }

    /// Cancels session `sid` of `plugin_id`/`mount_path`: it leaves the table
    /// and is returned so that the caller removes its part file.
    pub fn cancel(&mut self, sid: &str, plugin_id: &str, mount_path: &str) -> (r: Result<UploadSession, UploadSessionError>)
        requires
            old(self).wf(),
        ensures
            final(self).wf(),
            match owned_lookup(old(self).view(), sid@, plugin_id@, mount_path@) {
                None => r matches Err(UploadSessionError::NotFound(m)) && m@ == sid@ && final(self).view()
                    == old(self).view(),
                Some(s) => r == Ok::<UploadSession, UploadSessionError>(s) && final(self).view() == old(self).view().remove(sid@),
            },
    {
        match self.take_owned(sid, plugin_id, Some(mount_path)) {
            Some(s) => Ok(s),
            None => Err(UploadSessionError::NotFound(string_from(sid))),
        }
    }

    /// Cancels session `sid` of `plugin_id` whatever its mount.
    pub fn cancel_for_plugin(&mut self, sid: &str, plugin_id: &str) -> (r: Result<UploadSession, UploadSessionError>)
        requires
            old(self).wf(),
        ensures
            final(self).wf(),
            if old(self).view().contains_key(sid@) && old(self).view()[sid@].plugin_id@ == plugin_id@ {
                r == Ok::<UploadSession, UploadSessionError>(old(self).view()[sid@]) && final(self).view()
                    == old(self).view().remove(sid@)
            } else {
                r matches Err(UploadSessionError::NotFound(m)) && m@ == sid@ && final(self).view() == old(self).view()
            },
    {
        match self.take_owned(sid, plugin_id, None) {
            Some(s) => Ok(s),
            None => Err(UploadSessionError::NotFound(string_from(sid))),
        }
    }

    /// Removes every session matching `pred` (in table order) and returns them.
    fn drain_where(&mut self, plugin_id: &str, mount_path: &str, now_ms: u64, by_owner: bool) -> (removed: Vec<UploadSession>)
        requires
            old(self).wf(),
        ensures
            final(self).wf(),
            removed@ == old(self).sessions().filter(|s: UploadSession| drained(s, plugin_id@, mount_path@, now_ms, by_owner)),
            final(self).sessions() == old(self).sessions().filter(|s: UploadSession| !drained(s, plugin_id@, mount_path@, now_ms, by_owner)),
    {
        let ghost orig = self.sessions@;
        let ghost keep = |s: UploadSession| !drained(s, plugin_id@, mount_path@, now_ms, by_owner);
        let ghost drop = |s: UploadSession| drained(s, plugin_id@, mount_path@, now_ms, by_owner);
        let mut src: Vec<UploadSession> = Vec::new();
        std::mem::swap(&mut src, &mut self.sessions);
        let mut kept: Vec<UploadSession> = Vec::new();
        let mut removed: Vec<UploadSession> = Vec::new();
        let ghost mut i: int = 0;
        proof {
            reveal(Seq::filter);
            assert(orig.take(0) =~= Seq::<UploadSession>::empty());
        }
        while src.len() > 0
            invariant
                0 <= i <= orig.len(),
                src@ == orig.skip(i),
                kept@ == orig.take(i).filter(keep),
                removed@ == orig.take(i).filter(drop),
                ids_unique(orig),
                forall|k: int| 0 <= k < kept@.len() ==> exists|j: int| 0 <= j < i && #[trigger] kept@[k] == orig[j],
                ids_unique(kept@),
                keep == (|s: UploadSession| !drained(s, plugin_id@, mount_path@, now_ms, by_owner)),
                drop == (|s: UploadSession| drained(s, plugin_id@, mount_path@, now_ms, by_owner)),
            decreases src@.len(),
        {
            let s = src.remove(0);
            proof {
                assert(s == orig[i]);
                assert(orig.take(i + 1).drop_last() =~= orig.take(i));
                assert(orig.take(i + 1).last() == orig[i]);
                reveal(Seq::filter);
                assert(src@ =~= orig.skip(i + 1));
            }
            let d = if by_owner {
                s.owned(plugin_id, mount_path)
            } else {
                now_ms > s.last_active_ms && now_ms - s.last_active_ms > SESSION_TTL_MS
            };
            if d {
                removed.push(s);
            } else {
                proof {
                    assert forall|k: int| 0 <= k < kept@.len() implies kept@[k].id@ != s.id@ by {
                        let j = choose|j: int| 0 <= j < i && #[trigger] kept@[k] == orig[j];
                        assert(j != i);
                    }
                }
                let ghost before = kept@;
                kept.push(s);
                proof {
                    assert forall|k: int| 0 <= k < kept@.len() implies exists|j: int|
                        0 <= j < i + 1 && #[trigger] kept@[k] == orig[j] by {
                        if k < before.len() {
                            let j = choose|j: int| 0 <= j < i && #[trigger] before[k] == orig[j];
                            assert(kept@[k] == orig[j]);
                        } else {
                            assert(kept@[k] == orig[i]);
                        }
                    }
                }
            }
            proof {
                i = i + 1;
            }
        }
        proof {
            assert(orig.take(i) =~= orig);
        }
        self.sessions = kept;
        removed
    }

    /// Cancels every session of a mount (unmount / disable); returns the
    /// removed sessions, whose part files the caller deletes.
    pub fn cancel_for_mount(&mut self, plugin_id: &str, mount_path: &str) -> (removed: Vec<UploadSession>)
        requires
            old(self).wf(),
        ensures
            final(self).wf(),
            removed@ == old(self).sessions().filter(|s: UploadSession| s.owned_by(plugin_id@, mount_path@)),
            final(self).sessions() == old(self).sessions().filter(|s: UploadSession| !s.owned_by(plugin_id@, mount_path@)),
    {
        let r = self.drain_where(plugin_id, mount_path, 0, true);
        proof {
            assert((|s: UploadSession| drained(s, plugin_id@, mount_path@, 0, true)) =~= (|s: UploadSession|
                s.owned_by(plugin_id@, mount_path@)));
            assert((|s: UploadSession| !drained(s, plugin_id@, mount_path@, 0, true)) =~= (|s: UploadSession|
                !s.owned_by(plugin_id@, mount_path@)));
        }
        r
    }

    /// Removes the sessions idle for longer than the TTL at `now_ms`; returns
    /// them, whose part files the caller deletes.
    pub fn sweep_expired(&mut self, now_ms: u64) -> (removed: Vec<UploadSession>)
        requires
            old(self).wf(),
        ensures
            final(self).wf(),
            removed@ == old(self).sessions().filter(|s: UploadSession| s.expired_at(now_ms)),
            final(self).sessions() == old(self).sessions().filter(|s: UploadSession| !s.expired_at(now_ms)),
    {
        let r = self.drain_where("", "", now_ms, false);
        proof {
            assert((|s: UploadSession| drained(s, ""@, ""@, now_ms, false)) =~= (|s: UploadSession|
                s.expired_at(now_ms)));
            assert((|s: UploadSession| !drained(s, ""@, ""@, now_ms, false)) =~= (|s: UploadSession|
                !s.expired_at(now_ms)));
        }
        r
    }
}

/// Selection of [`UploadSessionManager::drain_where`]: by owner, or by expiry.
pub open spec fn drained(s: UploadSession, plugin: Seq<char>, mount: Seq<char>, now_ms: u64, by_owner: bool) -> bool {
    if by_owner {
        s.owned_by(plugin, mount)
    } else {
        s.expired_at(now_ms)
    }
}

proof fn lemma_map_absent_all(s: Seq<UploadSession>)
    requires
        s.len() == 0,
    ensures
        session_map(s) == Map::<Seq<char>, UploadSession>::empty(),
{
    assert(session_map(s) =~= Map::<Seq<char>, UploadSession>::empty());
}

proof fn lemma_map_len(s: Seq<UploadSession>)
    requires
        ids_unique(s),
    ensures
        session_map(s).len() == s.len(),
        session_map(s).dom().finite(),
    decreases s.len(),
{
    if s.len() == 0 {
        lemma_map_absent_all(s);
    } else {
        let p = s.drop_last();
        assert(ids_unique(p));
        lemma_map_len(p);
        assert(p.push(s.last()) =~= s);
        lemma_map_push(p, s.last());
        lemma_map_absent(p, s.last().id@);
    }
}

/// An owned copy of `s`.
fn string_from(s: &str) -> (r: String)
    ensures
        r@ == s@,
{
    s.to_owned()
}

/// What completion does after the media placement outcome of a session taken
/// out by [`UploadSessionManager::take_for_complete`].
#[derive(Debug, Clone, PartialEq, Eq)]
pub enum PlacementFollowUp {
    /// Placed: delete the part file (the public copy is the only one); the
    /// upload succeeded with the target.
    RemovePart,
    /// Name taken in the public collection: restore the session, keep the
    /// part file, fail with duplicate-name (no private fallback).
    RejectDuplicate,
    /// Other failure: rename the part file to the private target instead
    /// (restore the session if that rename fails).
    RenameToPrivate,
}

/// Decision after a media placement attempt.
pub fn after_placement(outcome: &Result<(), PlacementError>) -> (f: PlacementFollowUp)
    ensures
        f == match outcome {
            Ok(()) => PlacementFollowUp::RemovePart,
            Err(PlacementError::Duplicate(_)) => PlacementFollowUp::RejectDuplicate,
            Err(PlacementError::Other(_)) => PlacementFollowUp::RenameToPrivate,
        },
{
    match outcome {
        Ok(()) => PlacementFollowUp::RemovePart,
        Err(PlacementError::Duplicate(_)) => PlacementFollowUp::RejectDuplicate,
        Err(PlacementError::Other(_)) => PlacementFollowUp::RenameToPrivate,
    }
}

/// A session is stored under its own id.
pub proof fn lemma_stored_under_id(m: UploadSessionManager, sid: Seq<char>)
    requires
        m.view().contains_key(sid),
    ensures
        m.view()[sid].id@ == sid,
{
    let i = choose|i: int| #[trigger] slot_of(m.sessions(), i, sid);
    assert(slot_of(m.sessions(), i, sid));
}

/// A session is visible only to the plugin and mount that own it: looking
/// it up for anyone else finds nothing.
pub proof fn lemma_visible_only_to_owner(m: UploadSessionManager, sid: Seq<char>, plugin: Seq<char>, mount: Seq<char>)
    ensures
        owned_lookup(m.view(), sid, plugin, mount) matches Some(s) ==> s.owned_by(plugin, mount) && s.id@ == sid,
        m.view().contains_key(sid) && !m.view()[sid].owned_by(plugin, mount) ==> owned_lookup(m.view(), sid, plugin, mount) is None,
{
    if m.view().contains_key(sid) {
        lemma_stored_under_id(m, sid);
    }
}

/// Putting back the session that a successful completion took out (as a
/// failed move does) gives back the table as it was, so the upload can be
/// completed again.
pub proof fn lemma_restore_undoes_take(m: UploadSessionManager, sid: Seq<char>, plugin: Seq<char>, mount: Seq<char>)
    requires
        owned_lookup(m.view(), sid, plugin, mount) is Some,
    ensures
        ({
            let s = owned_lookup(m.view(), sid, plugin, mount)->0;
            m.view().remove(sid).insert(s.id@, s) == m.view()
        }),
{
    lemma_stored_under_id(m, sid);
    let s = owned_lookup(m.view(), sid, plugin, mount)->0;
    assert(m.view().remove(sid).insert(s.id@, s) =~= m.view());
}

/// An append resumes where the last one ended: once a committed append has
/// brought a session to `n` bytes, the session answers to its owner with
/// `n` received and the same part file, so the next append is accepted at
/// offset `n` and refused, with `n` expected, at any other offset.
pub proof fn lemma_append_resumes_at_count(
    before: UploadSessionManager,
    after: UploadSessionManager,
    sid: Seq<char>,
    plugin: Seq<char>,
    mount: Seq<char>,
    written: u64,
    now_ms: u64,
)
    requires
        owned_lookup(before.view(), sid, plugin, mount) matches Some(s) && s.received + written <= u64::MAX
            && after.view() == before.view().insert(
            sid,
            UploadSession { received: (s.received + written) as u64, last_active_ms: now_ms, ..s },
        ),
    ensures
        ({
            let s = owned_lookup(before.view(), sid, plugin, mount)->0;
            owned_lookup(after.view(), sid, plugin, mount) matches Some(t) && t.received == s.received + written
                && t.tmp == s.tmp && t.target == s.target && t.size == s.size
        }),
{
}

} // verus!
