//! Order of directory listings: directories first, then by name (the
//! mount-root listing orders by name alone). Names compare as `String`s do:
//! lexicographically by code point.

use vstd::prelude::*;
use crate::server::FileEntryDto;
use crate::saf_tree::{components, match_saf_root, saf_root_match, string_views, tree_alias, tree_alias_of};
use crate::paths::is_filtered_listing_name;
use crate::text::{
    chars_of, seq_ends_with, string_of, trim_end_char, trim_end_chars, trim_start_char, trim_start_chars,
};

verus! {

broadcast use vstd::seq_lib::group_to_multiset_ensures;

/// Result of a listing (errors are reported separately).
#[derive(Debug, Clone, PartialEq, Eq)]
pub struct ListOutcome {
    /// Entries in listing order.
    pub entries: Vec<FileEntryDto>,
    /// Set when the listing may be filtered by storage permissions.
    pub notice: Option<String>,
}

/// `a < b` lexicographically by code point.
pub open spec fn name_lt(a: Seq<char>, b: Seq<char>) -> bool
    decreases a.len(),
{
    if a.len() == 0 {
        b.len() > 0
    } else if b.len() == 0 {
        false
    } else if a[0] != b[0] {
        (a[0] as u32) < (b[0] as u32)
    } else {
        name_lt(a.drop_first(), b.drop_first())
    }
}

pub(crate) proof fn lemma_name_lt_asym(a: Seq<char>, b: Seq<char>)
    ensures
        name_lt(a, b) ==> !name_lt(b, a),
    decreases a.len(),
{
    if a.len() > 0 && b.len() > 0 && a[0] == b[0] {
        lemma_name_lt_asym(a.drop_first(), b.drop_first());
    }
}

pub(crate) proof fn lemma_name_lt_trans(a: Seq<char>, b: Seq<char>, c: Seq<char>)
    requires
        name_lt(a, b),
        name_lt(b, c),
    ensures
        name_lt(a, c),
    decreases a.len(),
{
    if a.len() > 0 && b.len() > 0 && c.len() > 0 && a[0] == b[0] && b[0] == c[0] {
        lemma_name_lt_trans(a.drop_first(), b.drop_first(), c.drop_first());
    }
}

pub(crate) proof fn lemma_name_lt_total(a: Seq<char>, b: Seq<char>)
    ensures
        !name_lt(a, a),
        a != b ==> name_lt(a, b) || name_lt(b, a),
    decreases a.len(),
{
    if a.len() > 0 {
        lemma_name_lt_total(a.drop_first(), a.drop_first());
        if b.len() > 0 && a[0] == b[0] {
            lemma_name_lt_total(a.drop_first(), b.drop_first());
            if a.drop_first() == b.drop_first() {
                assert forall|i: int| 0 <= i < a.len() implies a[i] == b[i] by {
                    if i > 0 {
                        assert(a[i] == a.drop_first()[i - 1]);
                        assert(b[i] == b.drop_first()[i - 1]);
                    }
                }
                assert(a =~= b);
            }
        } else if b.len() > 0 {
            vstd::utf8::char_u32_cast(a[0], a[0] as u32);
            vstd::utf8::char_u32_cast(b[0], b[0] as u32);
        }
    } else if b.len() == 0 {
        assert(a =~= b);
    }
}

/// `a` sorts strictly before `b`; with `dirs_first`, any directory sorts
/// before any file.
pub open spec fn entry_lt(a: FileEntryDto, b: FileEntryDto, dirs_first: bool) -> bool {
    if dirs_first && a.is_dir != b.is_dir {
        a.is_dir
    } else {
        name_lt(a.name@, b.name@)
    }
}

/// No entry sorts strictly before an earlier one.
pub open spec fn sorted_entries(s: Seq<FileEntryDto>, dirs_first: bool) -> bool {
    forall|i: int, j: int| 0 <= i < j < s.len() ==> !entry_lt(#[trigger] s[j], #[trigger] s[i], dirs_first)
}

proof fn lemma_entry_lt_asym(a: FileEntryDto, b: FileEntryDto, dirs_first: bool)
    ensures
        entry_lt(a, b, dirs_first) ==> !entry_lt(b, a, dirs_first),
{
    lemma_name_lt_asym(a.name@, b.name@);
}

proof fn lemma_entry_lt_trans(a: FileEntryDto, b: FileEntryDto, c: FileEntryDto, dirs_first: bool)
    requires
        entry_lt(a, b, dirs_first),
        entry_lt(b, c, dirs_first),
    ensures
        entry_lt(a, c, dirs_first),
{
    if !(dirs_first && (a.is_dir != b.is_dir || b.is_dir != c.is_dir)) {
        lemma_name_lt_trans(a.name@, b.name@, c.name@);
    }
}

/// Whether `a` sorts strictly before `b` by name.
pub fn name_less(a: &str, b: &str) -> (r: bool)
    ensures
        r == name_lt(a@, b@),
{
    let x = chars_of(a);
    let y = chars_of(b);
    let mut i: usize = 0;
    proof {
        assert(x@.skip(0) =~= x@);
        assert(y@.skip(0) =~= y@);
    }
    while i < x.len() && i < y.len() && x[i] == y[i]
        invariant
            i <= x@.len(),
            i <= y@.len(),
            name_lt(x@, y@) == name_lt(x@.skip(i as int), y@.skip(i as int)),
        decreases x@.len() - i,
    {
        proof {
            assert(x@.skip(i as int).drop_first() =~= x@.skip(i + 1));
            assert(y@.skip(i as int).drop_first() =~= y@.skip(i + 1));
        }
        i += 1;
    }
    proof {
        assert(x@.skip(i as int).len() == x@.len() - i);
        assert(y@.skip(i as int).len() == y@.len() - i);
        if i < x.len() && i < y.len() {
            assert(x@.skip(i as int)[0] == x@[i as int]);
            assert(y@.skip(i as int)[0] == y@[i as int]);
        }
    }
    if i == x.len() {
        i < y.len()
    } else if i == y.len() {
        false
    } else {
        (x[i] as u32) < (y[i] as u32)
    }
}

fn entry_less(a: &FileEntryDto, b: &FileEntryDto, dirs_first: bool) -> (r: bool)
    ensures
        r == entry_lt(*a, *b, dirs_first),
{
    if dirs_first && a.is_dir != b.is_dir {
        a.is_dir
    } else {
        name_less(a.name.as_str(), b.name.as_str())
    }
}

/// Where a stable insertion puts `x` into `s`: before the first entry that
/// sorts after it.
pub open spec fn entry_insert_pos(s: Seq<FileEntryDto>, x: FileEntryDto, dirs_first: bool) -> int
    decreases s.len(),
{
    if s.len() == 0 {
        0
    } else if entry_lt(x, s[0], dirs_first) {
        0
    } else {
        1 + entry_insert_pos(s.drop_first(), x, dirs_first)
    }
}

/// `s` stably sorted: each entry inserted, in turn, after every earlier one
/// that does not sort after it.
pub open spec fn stable_sorted(s: Seq<FileEntryDto>, dirs_first: bool) -> Seq<FileEntryDto>
    decreases s.len(),
{
    if s.len() == 0 {
        Seq::empty()
    } else {
        let r = stable_sorted(s.drop_last(), dirs_first);
        r.insert(entry_insert_pos(r, s.last(), dirs_first), s.last())
    }
}

/// Sorts a listing stably: with `dirs_first`, directories before files, and
/// by name within each group; without, by name only. Entries that compare
/// equal keep their order; the result holds the same entries.
pub fn sort_entries(entries: Vec<FileEntryDto>, dirs_first: bool) -> (out: Vec<FileEntryDto>)
    ensures
        out@ == stable_sorted(entries@, dirs_first),
        sorted_entries(out@, dirs_first),
        out@.to_multiset() == entries@.to_multiset(),
{
    let ghost orig = entries@;
    let mut src = entries;
    let mut out: Vec<FileEntryDto> = Vec::new();
    let ghost mut i: int = 0;
    proof {
        assert(orig.take(0) =~= Seq::<FileEntryDto>::empty());
    }
    while src.len() > 0
        invariant
            0 <= i <= orig.len(),
            src@ == orig.skip(i),
            sorted_entries(out@, dirs_first),
            out@.to_multiset() == orig.take(i).to_multiset(),
            out@ == stable_sorted(orig.take(i), dirs_first),
        decreases src@.len(),
    {
        let x = src.remove(0);
        proof {
            assert(x == orig[i]);
            assert(src@ =~= orig.skip(i + 1));
        }
        let mut p: usize = 0;
        proof {
            assert(out@.skip(0) =~= out@);
        }
        while p < out.len() && !entry_less(&x, &out[p], dirs_first)
            invariant
                p <= out@.len(),
                forall|k: int| 0 <= k < p ==> !entry_lt(x, #[trigger] out@[k], dirs_first),
                entry_insert_pos(out@, x, dirs_first) == p + entry_insert_pos(out@.skip(p as int), x, dirs_first),
            decreases out@.len() - p,
        {
            proof {
                assert(out@.skip(p as int).drop_first() =~= out@.skip(p + 1));
                assert(out@.skip(p as int)[0] == out@[p as int]);
            }
            p += 1;
        }
        proof {
            if p < out@.len() {
                assert(out@.skip(p as int)[0] == out@[p as int]);
            }
            assert(entry_insert_pos(out@, x, dirs_first) == p);
            assert(orig.take(i + 1).drop_last() =~= orig.take(i));
            assert(orig.take(i + 1).last() == x);
        }
        let ghost before = out@;
        proof {
            assert forall|j: int| p <= j < before.len() implies !entry_lt(#[trigger] before[j], x, dirs_first) by {
                lemma_entry_lt_asym(before[j], x, dirs_first);
                if entry_lt(before[j], x, dirs_first) {
                    if j > p {
                        lemma_entry_lt_trans(before[j], x, before[p as int], dirs_first);
                    }
                }
            }
        }
        out.insert(p, x);
        proof {
            assert(out@ == before.insert(p as int, x));
            assert forall|a: int, b: int| 0 <= a < b < out@.len() implies !entry_lt(
                #[trigger] out@[b],
                #[trigger] out@[a],
                dirs_first,
            ) by {
                if a < p && b < p {
                    assert(out@[a] == before[a] && out@[b] == before[b]);
                } else if a < p && b == p {
                } else if a < p {
                    assert(out@[a] == before[a] && out@[b] == before[b - 1]);
                } else if a == p {
                    assert(out@[b] == before[b - 1]);
                } else {
                    assert(out@[a] == before[a - 1] && out@[b] == before[b - 1]);
                }
            }
            vstd::seq_lib::to_multiset_insert(before, p as int, x);
            assert(orig.take(i + 1) =~= orig.take(i).push(x));
            i = i + 1;
        }
    }
    proof {
        assert(orig.take(i) =~= orig);
    }
    out
}

/// An entry by value: name, size, mtime, directory flag.
pub open spec fn dto_view(e: FileEntryDto) -> (Seq<char>, u64, u64, bool) {
    (e.name@, e.size, e.mtime, e.is_dir)
}

/// Entries by value.
pub open spec fn dto_views(s: Seq<FileEntryDto>) -> Seq<(Seq<char>, u64, u64, bool)> {
    s.map_values(|e: FileEntryDto| dto_view(e))
}

/// The top-level directory entries of SAF tree roots: one per root with an
/// alias, named by it (size and mtime 0); roots without one are skipped.
pub open spec fn alias_entries(saf_roots: Seq<String>) -> Seq<(Seq<char>, u64, u64, bool)>
    decreases saf_roots.len(),
{
    if saf_roots.len() == 0 {
        Seq::empty()
    } else {
        let rest = alias_entries(saf_roots.drop_last());
        match tree_alias_of(saf_roots.last()@) {
            Some(a) => rest.push((a, 0u64, 0u64, true)),
            None => rest,
        }
    }
}

proof fn lemma_views_multiset(s: Seq<FileEntryDto>, t: Seq<FileEntryDto>)
    requires
        s.to_multiset() == t.to_multiset(),
    ensures
        dto_views(s).to_multiset() == dto_views(t).to_multiset(),
    decreases s.len(),
{
    vstd::seq_lib::to_multiset_len(s);
    vstd::seq_lib::to_multiset_len(t);
    if s.len() == 0 {
        assert(dto_views(s) =~= dto_views(t));
    } else {
        let x = s[0];
        assert(s.to_multiset().count(x) > 0);
        assert(t.contains(x));
        let j = choose|j: int| 0 <= j < t.len() && t[j] == x;
        vstd::seq_lib::to_multiset_remove(s, 0);
        vstd::seq_lib::to_multiset_remove(t, j);
        assert(s.remove(0) =~= s.drop_first());
        lemma_views_multiset(s.drop_first(), t.remove(j));
        assert(dto_views(s.drop_first()) =~= dto_views(s).remove(0));
        assert(dto_views(t.remove(j)) =~= dto_views(t).remove(j));
        vstd::seq_lib::to_multiset_remove(dto_views(s), 0);
        vstd::seq_lib::to_multiset_remove(dto_views(t), j);
        assert(dto_views(s).to_multiset().count(dto_view(x)) > 0);
        assert(dto_views(t).to_multiset().count(dto_view(x)) > 0) by {
            assert(dto_views(t)[j] == dto_view(x));
        }
        assert(dto_views(s).to_multiset() =~= dto_views(s).to_multiset().remove(dto_view(x)).insert(dto_view(x)));
        assert(dto_views(t).to_multiset() =~= dto_views(t).to_multiset().remove(dto_view(x)).insert(dto_view(x)));
    }
}

/// Where a stable insertion by name puts entry `x` into `s`.
pub open spec fn view_insert_pos(s: Seq<(Seq<char>, u64, u64, bool)>, x: (Seq<char>, u64, u64, bool)) -> int
    decreases s.len(),
{
    if s.len() == 0 {
        0
    } else if name_lt(x.0, s[0].0) {
        0
    } else {
        1 + view_insert_pos(s.drop_first(), x)
    }
}

/// Entries stably sorted by name.
pub open spec fn views_sorted(s: Seq<(Seq<char>, u64, u64, bool)>) -> Seq<(Seq<char>, u64, u64, bool)>
    decreases s.len(),
{
    if s.len() == 0 {
        Seq::empty()
    } else {
        let r = views_sorted(s.drop_last());
        r.insert(view_insert_pos(r, s.last()), s.last())
    }
}

proof fn lemma_insert_pos_views(s: Seq<FileEntryDto>, x: FileEntryDto)
    ensures
        entry_insert_pos(s, x, false) == view_insert_pos(dto_views(s), dto_view(x)),
    decreases s.len(),
{
    if s.len() > 0 {
        assert(dto_views(s.drop_first()) =~= dto_views(s).drop_first());
        lemma_insert_pos_views(s.drop_first(), x);
    }
}

proof fn lemma_entry_insert_pos_bounds(s: Seq<FileEntryDto>, x: FileEntryDto, dirs_first: bool)
    ensures
        0 <= entry_insert_pos(s, x, dirs_first) <= s.len(),
    decreases s.len(),
{
    if s.len() > 0 {
        lemma_entry_insert_pos_bounds(s.drop_first(), x, dirs_first);
    }
}

proof fn lemma_stable_sorted_len(s: Seq<FileEntryDto>, dirs_first: bool)
    ensures
        stable_sorted(s, dirs_first).len() == s.len(),
    decreases s.len(),
{
    if s.len() > 0 {
        lemma_stable_sorted_len(s.drop_last(), dirs_first);
        lemma_entry_insert_pos_bounds(stable_sorted(s.drop_last(), dirs_first), s.last(), dirs_first);
    }
}

proof fn lemma_sorted_views(s: Seq<FileEntryDto>)
    ensures
        dto_views(stable_sorted(s, false)) == views_sorted(dto_views(s)),
    decreases s.len(),
{
    if s.len() > 0 {
        let init = s.drop_last();
        lemma_sorted_views(init);
        let r = stable_sorted(init, false);
        lemma_stable_sorted_len(init, false);
        lemma_insert_pos_views(r, s.last());
        lemma_entry_insert_pos_bounds(r, s.last(), false);
        assert(dto_views(init) =~= dto_views(s).drop_last());
        assert(dto_views(s).last() == dto_view(s.last()));
        let p = entry_insert_pos(r, s.last(), false);
        assert(dto_views(r.insert(p, s.last())) =~= dto_views(r).insert(p, dto_view(s.last())));
    }
}

/// Listing of a mount's root: the reachable real roots (as the caller found
/// them) followed by a directory entry for each SAF tree root that has an
/// alias, sorted stably by name.
pub fn root_listing(real_roots: Vec<FileEntryDto>, saf_roots: &[String]) -> (out: Vec<FileEntryDto>)
    ensures
        dto_views(out@) == views_sorted(dto_views(real_roots@) + alias_entries(saf_roots@)),
        sorted_entries(out@, false),
        dto_views(out@).to_multiset() == (dto_views(real_roots@) + alias_entries(saf_roots@)).to_multiset(),
{
    let mut entries = real_roots;
    let ghost base = dto_views(entries@);
    let mut i: usize = 0;
    while i < saf_roots.len()
        invariant
            i <= saf_roots@.len(),
            dto_views(entries@) == base + alias_entries(saf_roots@.take(i as int)),
        decreases saf_roots@.len() - i,
    {
        proof {
            assert(saf_roots@.take(i + 1).drop_last() =~= saf_roots@.take(i as int));
            assert(saf_roots@.take(i + 1).last() == saf_roots@[i as int]);
        }
        match tree_alias(saf_roots[i].as_str()) {
            Some(alias) => {
                let ghost before = entries@;
                entries.push(FileEntryDto { name: alias, size: 0, mtime: 0, is_dir: true });
                proof {
                    assert(dto_views(entries@) =~= dto_views(before).push(dto_view(entries@.last())));
                }
            },
            None => {},
        }
        i += 1;
    }
    proof {
        assert(saf_roots@.take(saf_roots@.len() as int) =~= saf_roots@);
    }
    let ghost unsorted = entries@;
    let out = sort_entries(entries, false);
    proof {
        lemma_views_multiset(out@, unsorted);
        lemma_sorted_views(unsorted);
    }
    out
}

/// `s` without leading and trailing `/`.
pub open spec fn trim_slashes(s: Seq<char>) -> Seq<char> {
    trim_start_char(trim_end_char(s, '/'), '/')
}

/// A listing request's path without leading and trailing `/`.
pub fn trim_slashes_str(rel: &str) -> (t: String)
    ensures
        t@ == trim_slashes(rel@),
{
    let c = chars_of(rel);
    let e = trim_end_chars(c.as_slice(), '/');
    let b = trim_start_chars(e.as_slice(), '/');
    string_of(b.as_slice())
}

/// Where a listing is read from.
#[derive(Debug, Clone, PartialEq, Eq)]
pub enum ListRoute {
    /// The mount's root (its roots and SAF tree aliases).
    MountRoot,
    /// Inside a SAF tree: the tree URI and the components below its alias.
    SafTree { tree_uri: String, parts: Vec<String> },
    /// A real path below a root (resolved in the sandbox).
    RealPath { rel: String },
}

/// Route of a listing of `rel` (slashes at either end ignored): the mount
/// root when nothing is left, a SAF tree when the path starts with one's
/// alias, else a real path.
pub fn list_route(saf_roots: &[String], rel: &str) -> (r: ListRoute)
    ensures
        ({
            let t = trim_slashes(rel@);
            &&& t.len() == 0 ==> r is MountRoot
            &&& t.len() > 0 && saf_root_match(string_views(saf_roots@), t) is None ==> (r matches ListRoute::RealPath {
                rel: x,
            } && x@ == t)
            &&& t.len() > 0 && saf_root_match(string_views(saf_roots@), t) is Some ==> (r matches ListRoute::SafTree {
                tree_uri,
                parts,
            } && {
                let (k, rest) = saf_root_match(string_views(saf_roots@), t)->0;
                &&& tree_uri@ == saf_roots@[k]@
                &&& string_views(parts@) == components(rest)
            })
        }),
{
    let t = trim_slashes_str(rel);
    if t.as_str().is_empty() {
        return ListRoute::MountRoot;
    }
    match match_saf_root(saf_roots, t.as_str()) {
        Some((tree_uri, parts)) => ListRoute::SafTree { tree_uri, parts },
        None => ListRoute::RealPath { rel: t },
    }
}

/// A child of a SAF tree directory, as the storage bridge reports it.
#[derive(Debug, Clone, PartialEq, Eq)]
pub struct SafChild {
    /// Display name.
    pub name: String,
    /// Size in bytes as reported (may be negative when unknown).
    pub size: i64,
    /// Whether it is a directory.
    pub is_dir: bool,
}

/// The listing entry of a SAF child: directories have size 0, a negative
/// size counts as 0, and SAF entries carry no modification time.
pub open spec fn saf_child_entry(c: SafChild) -> FileEntryDto {
    FileEntryDto {
        name: c.name,
        size: if c.is_dir || c.size < 0 {
            0
        } else {
            c.size as u64
        },
        mtime: 0,
        is_dir: c.is_dir,
    }
}

/// The entries of `children` that a listing shows (no `*.part` names), in
/// order.
pub open spec fn saf_visible(children: Seq<SafChild>) -> Seq<FileEntryDto>
    decreases children.len(),
{
    if children.len() == 0 {
        Seq::empty()
    } else {
        let r = saf_visible(children.drop_last());
        if seq_ends_with(children.last().name@, ".part"@) {
            r
        } else {
            r.push(saf_child_entry(children.last()))
        }
    }
}

/// Listing of a SAF tree directory: `*.part` children hidden, directories
/// first, then by name.
pub fn saf_listing(children: Vec<SafChild>) -> (out: Vec<FileEntryDto>)
    ensures
        out@ == stable_sorted(saf_visible(children@), true),
{
    let mut entries: Vec<FileEntryDto> = Vec::new();
    let mut i: usize = 0;
    while i < children.len()
        invariant
            i <= children@.len(),
            entries@ == saf_visible(children@.take(i as int)),
        decreases children@.len() - i,
    {
        proof {
            assert(children@.take(i + 1).drop_last() =~= children@.take(i as int));
            assert(children@.take(i + 1).last() == children@[i as int]);
        }
        let c = &children[i];
        if !is_filtered_listing_name(c.name.as_str()) {
            let size: u64 = if c.is_dir || c.size < 0 {
                0
            } else {
                c.size as u64
            };
            entries.push(FileEntryDto { name: c.name.clone(), size, mtime: 0, is_dir: c.is_dir });
        }
        i += 1;
    }
    proof {
        assert(children@.take(children@.len() as int) =~= children@);
    }
    sort_entries(entries, true)
}

} // verus!
