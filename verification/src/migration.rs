//! One-off migration of the legacy peer data into the file-transfer
//! plugin's storage: receiving settings in the plugin's vocabulary, and
//! shared SAF roots with the plugin's content-hash ids (`root-<hex16>`).

use vstd::prelude::*;
use vstd::string::StringSliceAdditionalSpecFns;
use crate::saf_tree::{fnv1a, fnv1a64, hex16, to_hex16};
use crate::text::{concat, str_eq};

verus! {

/// Plugin whose storage receives the migrated data.
pub const FILE_TRANSFER_PLUGIN_ID: &'static str = "com.bedcode.file-transfer";

/// Receiving policy of the plugin for a legacy policy mode:
/// `always_accept` → `accept`, `always_deny` → `reject`, anything else → `ask`.
pub fn receiving_policy(policy_mode: &str) -> (p: &'static str)
    ensures
        p@ == (if policy_mode@ == "always_accept"@ {
            "accept"@
        } else if policy_mode@ == "always_deny"@ {
            "reject"@
        } else {
            "ask"@
        }),
{
    if str_eq(policy_mode, "always_accept") {
        "accept"
    } else if str_eq(policy_mode, "always_deny") {
        "reject"
    } else {
        "ask"
    }
}

/// Approval timeout of the plugin: the legacy seconds clamped to 10..=600.
pub fn approval_timeout_secs(ask_timeout_secs: u64) -> (t: u64)
    ensures
        t == (if ask_timeout_secs < 10 {
            10
        } else if ask_timeout_secs > 600 {
            600
        } else {
            ask_timeout_secs
        }),
{
    if ask_timeout_secs < 10 {
        10
    } else if ask_timeout_secs > 600 {
        600
    } else {
        ask_timeout_secs
    }
}

/// Id of a shared SAF root: `root-` and the 16 lowercase hex digits of the
/// FNV-1a hash of the tree URI's bytes.
pub fn shared_root_id(tree_uri: &str) -> (id: String)
    ensures
        id@ == "root-"@ + hex16(fnv1a(tree_uri.spec_bytes())),
{
    let hex = to_hex16(fnv1a64(tree_uri));
    let h = crate::text::string_of(hex.as_slice());
    concat("root-", h.as_str())
}

/// A legacy shared directory: a name and its root (a SAF tree, or a plain
/// path that the phone never produced).
#[derive(Debug, Clone, PartialEq, Eq)]
pub struct LegacySharedDir {
    /// Display name.
    pub name: String,
    /// Tree URI of a SAF root; none for a file-system root.
    pub tree_uri: Option<String>,
}

/// A shared root in the plugin's registry.
#[derive(Debug, Clone, PartialEq, Eq)]
pub struct SharedRoot {
    /// `root-<hex16>`.
    pub id: String,
    /// Display name.
    pub name: String,
    /// Tree URI.
    pub path: String,
}

/// Whether `r` is the migrated form of the SAF directory `d`.
pub open spec fn migrated_from(r: SharedRoot, d: LegacySharedDir) -> bool {
    d.tree_uri matches Some(u) && r.id@ == "root-"@ + hex16(fnv1a(vstd::utf8::encode_utf8(u@))) && r.name@ == d.name@
        && r.path@ == u@
}

/// The legacy SAF directories, in order, as plugin shared roots (file-system
/// roots are dropped).
pub fn migrate_shared_dirs(dirs: Vec<LegacySharedDir>) -> (roots: Vec<SharedRoot>)
    ensures
        roots@.len() == dirs@.filter(|d: LegacySharedDir| d.tree_uri is Some).len(),
        forall|k: int| 0 <= k < roots@.len() ==> migrated_from(
            #[trigger] roots@[k],
            dirs@.filter(|d: LegacySharedDir| d.tree_uri is Some)[k],
        ),
{
    let ghost orig = dirs@;
    let ghost saf = |d: LegacySharedDir| d.tree_uri is Some;
    let mut src = dirs;
    let mut roots: Vec<SharedRoot> = Vec::new();
    let ghost mut i: int = 0;
    proof {
        reveal(Seq::filter);
        assert(orig.take(0) =~= Seq::<LegacySharedDir>::empty());
    }
    while src.len() > 0
        invariant
            0 <= i <= orig.len(),
            src@ == orig.skip(i),
            saf == (|d: LegacySharedDir| d.tree_uri is Some),
            roots@.len() == orig.take(i).filter(saf).len(),
            forall|k: int| 0 <= k < roots@.len() ==> migrated_from(#[trigger] roots@[k], orig.take(i).filter(saf)[k]),
        decreases src@.len(),
    {
        let d = src.remove(0);
        proof {
            assert(d == orig[i]);
            assert(orig.take(i + 1).drop_last() =~= orig.take(i));
            reveal(Seq::filter);
            assert(src@ =~= orig.skip(i + 1));
        }
        let LegacySharedDir { name, tree_uri } = d;
        match tree_uri {
            Some(u) => {
                let id = shared_root_id(u.as_str());
                roots.push(SharedRoot { id, name, path: u });
            },
            None => {},
        }
        proof {
            i = i + 1;
        }
    }
    proof {
        assert(orig.take(i) =~= orig);
    }
    roots
}

} // verus!
