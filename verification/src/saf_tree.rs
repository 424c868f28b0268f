//! SAF tree roots: tree-URI recognition, root document id and alias, mapping a
//! relative path onto a SAF root, and the stable names of relay copies.
//!
//! A mount root is either a real path or a SAF tree URI
//! (`content://tree/<id>` or `content://<authority>/tree/<id>`). The tree id is
//! the last URI segment; its percent-decoded form is the root document id and,
//! without the `provider:` prefix, the alias under which the root is listed.

use vstd::prelude::*;
use vstd::utf8::{valid_utf8, decode_utf8};
use vstd::string::StringSliceAdditionalSpecFns;
use crate::error::AppError;
use crate::text::{chars_of, chars_eq, chars_range, concat, seq_starts_with, str_eq, string_of, push_char};

verus! {

// ==================== character search ====================

/// `i` is the first index at or after `from` holding `c`.
pub open spec fn first_at(s: Seq<char>, c: char, from: int, i: int) -> bool {
    &&& 0 <= from <= i < s.len()
    &&& s[i] == c
    &&& forall|m: int| from <= m < i ==> s[m] != c
}

/// No index at or after `from` holds `c`.
pub open spec fn absent_from(s: Seq<char>, c: char, from: int) -> bool {
    forall|m: int| from <= m < s.len() ==> s[m] != c
}

/// First index at or after `from` holding `c`.
pub fn find_char(cs: &[char], c: char, from: usize) -> (r: Option<usize>)
    requires
        from <= cs.len(),
    ensures
        r matches Some(i) ==> first_at(cs@, c, from as int, i as int),
        r is None ==> absent_from(cs@, c, from as int),
{
    let mut i = from;
    while i < cs.len()
        invariant
            from <= i <= cs.len(),
            forall|m: int| from <= m < i ==> cs@[m] != c,
        decreases cs.len() - i,
    {
        if cs[i] == c {
            return Some(i);
        }
        i += 1;
    }
    None
}

/// Last index holding `c` (-1 when none).
pub open spec fn last_index(s: Seq<char>, c: char) -> int
    decreases s.len(),
{
    if s.len() == 0 {
        -1
    } else if s.last() == c {
        s.len() - 1
    } else {
        last_index(s.drop_last(), c)
    }
}

proof fn lemma_last_index_bounds(s: Seq<char>, c: char)
    ensures
        -1 <= last_index(s, c) < s.len(),
        last_index(s, c) >= 0 ==> s[last_index(s, c)] == c,
    decreases s.len(),
{
    if s.len() > 0 && s.last() != c {
        lemma_last_index_bounds(s.drop_last(), c);
    }
}

/// Last index holding `c`.
fn rfind_char(cs: &[char], c: char) -> (r: Option<usize>)
    ensures
        r matches Some(i) ==> i as int == last_index(cs@, c),
        r is None ==> last_index(cs@, c) == -1,
{
    let mut i = cs.len();
    assert(cs@.take(i as int) =~= cs@);
    while i > 0
        invariant
            i <= cs.len(),
            last_index(cs@, c) == last_index(cs@.take(i as int), c),
        decreases i,
    {
        proof {
            assert(cs@.take(i as int).drop_last() =~= cs@.take(i - 1));
        }
        if cs[i - 1] == c {
            return Some(i - 1);
        }
        i -= 1;
    }
    proof {
        assert(cs@.take(0) =~= Seq::<char>::empty());
    }
    None
}

// ==================== tree URI recognition ====================

/// Whether `root` is a SAF tree URI: `content://tree/...`, or
/// `content://<authority>/tree/<id>` (at least three path segments after the
/// scheme, the second being `tree`).
pub open spec fn saf_tree_uri(root: Seq<char>) -> bool {
    ||| seq_starts_with(root, "content://tree/"@)
    ||| (seq_starts_with(root, "content://"@) && {
        let rest = root.skip(10);
        exists|i: int, j: int| #[trigger] tree_segment_at(rest, i, j)
    })
}

/// The first two `/` of `rest` are at `i` and `j` and enclose `tree`.
pub open spec fn tree_segment_at(rest: Seq<char>, i: int, j: int) -> bool {
    first_at(rest, '/', 0, i) && first_at(rest, '/', i + 1, j) && rest.subrange(i + 1, j) == "tree"@
}

/// Whether a mount root is a SAF tree URI.
pub fn is_saf_tree_uri(root: &str) -> (r: bool)
    ensures
        r == saf_tree_uri(root@),
{
    proof {
        reveal_strlit("content://tree/");
        reveal_strlit("content://");
        reveal_strlit("tree");
    }
    let cs = chars_of(root);
    let p1 = chars_of("content://tree/");
    if crate::text::chars_start_with(cs.as_slice(), p1.as_slice()) {
        return true;
    }
    let p2 = chars_of("content://");
    if !crate::text::chars_start_with(cs.as_slice(), p2.as_slice()) {
        return false;
    }
    let rest = chars_range(cs.as_slice(), 10, cs.len());
    assert(rest@ == root@.skip(10));
    let i = match find_char(rest.as_slice(), '/', 0) {
        Some(i) => i,
        None => {
            proof {
                assert forall|a: int, b: int| !#[trigger] tree_segment_at(rest@, a, b) by {}
            }
            return false;
        },
    };
    let j = match find_char(rest.as_slice(), '/', i + 1) {
        Some(j) => j,
        None => {
            proof {
                assert forall|a: int, b: int| !#[trigger] tree_segment_at(rest@, a, b) by {
                    if first_at(rest@, '/', 0, a) && first_at(rest@, '/', a + 1, b) {
                        assert(a == i);
                    }
                }
            }
            return false;
        },
    };
    let seg = chars_range(rest.as_slice(), i + 1, j);
    let tree = chars_of("tree");
    let ok = chars_eq(seg.as_slice(), tree.as_slice());
    proof {
        assert forall|a: int, b: int| #[trigger] tree_segment_at(rest@, a, b) implies a == i && b == j by {}
        if ok {
            assert(tree_segment_at(rest@, i as int, j as int));
        }
    }
    ok
}

// ==================== percent decoding ====================

/// Value of an ASCII hex digit.
pub open spec fn hex_digit_value(b: u8) -> Option<u8> {
    if 48 <= b <= 57 {
        Some((b - 48) as u8)
    } else if 97 <= b <= 102 {
        Some((b - 97 + 10) as u8)
    } else if 65 <= b <= 70 {
        Some((b - 65 + 10) as u8)
    } else {
        None
    }
}

/// Value of an ASCII hex digit.
pub fn hex_val(b: u8) -> (r: Option<u8>)
    ensures
        r == hex_digit_value(b),
{
    if b >= 48u8 && b <= 57u8 {
        Some(b - 48u8)
    } else if b >= 97u8 && b <= 102u8 {
        Some(b - 97u8 + 10)
    } else if b >= 65u8 && b <= 70u8 {
        Some(b - 65u8 + 10)
    } else {
        None
    }
}

/// Percent-decoding of `b` from index `i`: `%XX` with two hex digits becomes
/// one byte; anything else (including `+` and a malformed `%`) stays literal.
pub open spec fn pct_decode_from(b: Seq<u8>, i: int) -> Seq<u8>
    decreases b.len() - i,
{
    if i < 0 || i >= b.len() {
        Seq::empty()
    } else if b[i] == 37 && i + 2 < b.len() && hex_digit_value(b[i + 1]) is Some
        && hex_digit_value(b[i + 2]) is Some {
        seq![(hex_digit_value(b[i + 1])->0 * 16 + hex_digit_value(b[i + 2])->0) as u8]
            + pct_decode_from(b, i + 3)
    } else {
        seq![b[i]] + pct_decode_from(b, i + 1)
    }
}

/// Name of the result of std's lossy UTF-8 decoding of a byte sequence.
pub uninterp spec fn utf8_lossy(bytes: Seq<u8>) -> Seq<char>;

/// std `String::from_utf8_lossy`: decodes the bytes, each invalid sequence
/// replaced by U+FFFD. Claimed: the result is a function of the bytes alone
/// (named `utf8_lossy`), and on valid UTF-8 it is the plain decoding.
#[verifier::external_body]
fn string_from_utf8_lossy(bytes: &[u8]) -> (s: String)
    ensures
        s@ == utf8_lossy(bytes@),
        valid_utf8(bytes@) ==> s@ == decode_utf8(bytes@),
{
    String::from_utf8_lossy(bytes).into_owned()
}

/// Text of decoded bytes: their UTF-8 decoding when they are valid UTF-8,
/// otherwise the lossy decoding.
pub open spec fn decoded_text(bytes: Seq<u8>) -> Seq<char> {
    if valid_utf8(bytes) {
        decode_utf8(bytes)
    } else {
        utf8_lossy(bytes)
    }
}

/// Percent-decodes `s` (minimal: only `%XX`; `+` stays literal) and decodes the
/// resulting bytes as (lossy) UTF-8.
pub fn percent_decode(s: &str) -> (r: String)
    ensures
        r@ == decoded_text(pct_decode_from(s.spec_bytes(), 0)),
{
    let bytes = s.as_bytes();
    let mut out: Vec<u8> = Vec::new();
    let mut i: usize = 0;
    while i < bytes.len()
        invariant
            i <= bytes.len(),
            pct_decode_from(bytes@, 0) == out@ + pct_decode_from(bytes@, i as int),
        decreases bytes.len() - i,
    {
        if bytes[i] == 37u8 && bytes.len() - i > 2 {
            let hi = hex_val(bytes[i + 1]);
            let lo = hex_val(bytes[i + 2]);
            match (hi, lo) {
                (Some(h), Some(l)) => {
                    assert((h * 16 + l) as u8 == (h << 4u8 | l)) by (bit_vector)
                        requires h < 16, l < 16;
                    let v = h << 4 | l;
                    proof {
                        assert(out@.push(v) + pct_decode_from(bytes@, i + 3) =~= out@ + (seq![v]
                            + pct_decode_from(bytes@, i + 3)));
                    }
                    out.push(v);
                    i += 3;
                    continue;
                },
                _ => {},
            }
        }
        proof {
            assert(out@.push(bytes@[i as int]) + pct_decode_from(bytes@, i + 1) =~= out@ + (seq![
                bytes@[i as int],
            ] + pct_decode_from(bytes@, i + 1)));
        }
        out.push(bytes[i]);
        i += 1;
    }
    assert(out@ + pct_decode_from(bytes@, i as int) =~= out@);
    string_from_utf8_lossy(out.as_slice())
}


// ==================== first occurrence ====================

/// Index of the first `c` in `s` (-1 when none).
pub open spec fn first_index(s: Seq<char>, c: char) -> int
    decreases s.len(),
{
    if s.len() == 0 {
        -1
    } else if s[0] == c {
        0
    } else {
        let r = first_index(s.drop_first(), c);
        if r < 0 { -1 } else { r + 1 }
    }
}

/// `first_index` agrees with the quantified description of the first occurrence.
pub proof fn lemma_first_index(s: Seq<char>, c: char)
    ensures
        first_index(s, c) >= 0 ==> first_at(s, c, 0, first_index(s, c)),
        first_index(s, c) < 0 ==> first_index(s, c) == -1 && absent_from(s, c, 0),
    decreases s.len(),
{
    if s.len() > 0 && s[0] != c {
        let t = s.drop_first();
        lemma_first_index(t, c);
        if first_index(t, c) >= 0 {
            assert forall|m: int| 0 <= m < first_index(s, c) implies s[m] != c by {
                if m > 0 {
                    assert(s[m] == t[m - 1]);
                }
            }
        } else {
            assert forall|m: int| 0 <= m < s.len() implies s[m] != c by {
                if m > 0 {
                    assert(s[m] == t[m - 1]);
                }
            }
        }
    }
}

/// The first occurrence found from `from` is the first occurrence in `s.skip(from)`.
proof fn lemma_first_at_skip(s: Seq<char>, c: char, from: int, j: int)
    requires
        first_at(s, c, from, j),
    ensures
        first_index(s.skip(from), c) == j - from,
{
    let t = s.skip(from);
    lemma_first_index(t, c);
    let f = first_index(t, c);
    if f < 0 {
        assert(t[j - from] == c);
    } else if f < j - from {
        assert(t[f] == s[from + f]);
    } else if f > j - from {
        assert(t[j - from] == c);
    }
}

/// No occurrence from `from` means none in `s.skip(from)`.
proof fn lemma_absent_skip(s: Seq<char>, c: char, from: int)
    requires
        0 <= from <= s.len(),
        absent_from(s, c, from),
    ensures
        first_index(s.skip(from), c) == -1,
{
    let t = s.skip(from);
    lemma_first_index(t, c);
    if first_index(t, c) >= 0 {
        assert(t[first_index(t, c)] == s[from + first_index(t, c)]);
    }
}

// ==================== root document id and alias ====================

/// Last `/`-separated segment of `s` (the whole of `s` without `/`).
pub open spec fn last_segment(s: Seq<char>) -> Seq<char> {
    s.subrange(last_index(s, '/') + 1, s.len() as int)
}

/// Root document id of a tree URI: the percent-decoded last segment, if non-empty.
pub open spec fn tree_doc_id(uri: Seq<char>) -> Option<Seq<char>> {
    let seg = last_segment(uri);
    if seg.len() == 0 {
        None
    } else {
        Some(decoded_text(pct_decode_from(vstd::utf8::encode_utf8(seg), 0)))
    }
}

/// Tree URI -> root document id (percent-decoded last segment; `None` when empty).
pub fn tree_document_id(tree_uri: &str) -> (r: Option<String>)
    ensures
        r matches Some(d) ==> tree_doc_id(tree_uri@) == Some(d@),
        r is None ==> tree_doc_id(tree_uri@) is None,
{
    let cs = chars_of(tree_uri);
    proof {
        lemma_last_index_bounds(cs@, '/');
    }
    let start = match rfind_char(cs.as_slice(), '/') {
        Some(k) => k + 1,
        None => 0,
    };
    if start == cs.len() {
        return None;
    }
    let seg = string_of(chars_range(cs.as_slice(), start, cs.len()).as_slice());
    Some(percent_decode(seg.as_str()))
}

/// Alias of a decoded document id: the part after the first `:` when that part
/// is non-empty (`primary:Download` -> `Download`), otherwise the whole id.
pub open spec fn alias_of(d: Seq<char>) -> Seq<char> {
    let i = first_index(d, ':');
    if i >= 0 && i + 1 < d.len() { d.skip(i + 1) } else { d }
}

/// Alias of a tree URI.
pub open spec fn tree_alias_of(uri: Seq<char>) -> Option<Seq<char>> {
    match tree_doc_id(uri) {
        Some(d) => Some(alias_of(d)),
        None => None,
    }
}

/// Tree URI -> top-level alias (root document id without its `provider:` prefix).
pub fn tree_alias(tree_uri: &str) -> (r: Option<String>)
    ensures
        r matches Some(a) ==> tree_alias_of(tree_uri@) == Some(a@),
        r is None ==> tree_alias_of(tree_uri@) is None,
{
    let decoded = match tree_document_id(tree_uri) {
        Some(d) => d,
        None => return None,
    };
    let dc = chars_of(decoded.as_str());
    proof {
        lemma_first_index(dc@, ':');
    }
    match find_char(dc.as_slice(), ':', 0) {
        Some(i) => {
            if i + 1 < dc.len() {
                return Some(string_of(chars_range(dc.as_slice(), i + 1, dc.len()).as_slice()));
            }
            Some(decoded)
        },
        None => Some(decoded),
    }
}

// ==================== path components ====================

/// The non-empty `/`-separated components of `s`, in order.
pub open spec fn components(s: Seq<char>) -> Seq<Seq<char>>
    decreases s.len(),
{
    let f = first_index(s, '/');
    if f < 0 {
        if s.len() > 0 { seq![s] } else { Seq::empty() }
    } else {
        if f < 0 || f >= s.len() {
            Seq::empty()
        } else {
            (if f > 0 { seq![s.take(f)] } else { Seq::empty() }) + components(s.skip(f + 1))
        }
    }
}

/// Views of a vector of strings.
pub open spec fn string_views(v: Seq<String>) -> Seq<Seq<char>> {
    v.map_values(|x: String| x@)
}

/// The non-empty `/`-separated components of `cs`.
pub fn split_components(cs: &[char]) -> (parts: Vec<String>)
    ensures
        string_views(parts@) == components(cs@),
{
    let mut parts: Vec<String> = Vec::new();
    let mut p: usize = 0;
    proof {
        assert(cs@.skip(0) =~= cs@);
    }
    while p < cs.len()
        invariant
            p <= cs.len(),
            components(cs@) == string_views(parts@) + components(cs@.skip(p as int)),
        decreases cs.len() - p,
    {
        let ghost t = cs@.skip(p as int);
        match find_char(cs, '/', p) {
            Some(j) => {
                proof {
                    lemma_first_at_skip(cs@, '/', p as int, j as int);
                    lemma_first_index(t, '/');
                    assert(t.take(j - p) =~= cs@.subrange(p as int, j as int));
                    assert(t.skip(j - p + 1) =~= cs@.skip(j + 1));
                }
                if j > p {
                    let piece = string_of(chars_range(cs, p, j).as_slice());
                    let ghost before = parts@;
                    parts.push(piece);
                    proof {
                        assert(string_views(parts@) =~= string_views(before).push(piece@));
                    }
                }
                p = j + 1;
            },
            None => {
                proof {
                    lemma_absent_skip(cs@, '/', p as int);
                }
                let piece = string_of(chars_range(cs, p, cs.len()).as_slice());
                proof {
                    assert(t =~= piece@);
                }
                let ghost before = parts@;
                parts.push(piece);
                proof {
                    assert(string_views(parts@) =~= string_views(before).push(piece@));
                    assert(cs@.skip(cs.len() as int) =~= Seq::<char>::empty());
                }
                p = cs.len();
            },
        }
    }
    proof {
        assert(cs@.skip(p as int) =~= Seq::<char>::empty());
    }
    parts
}

// ==================== mapping a relative path onto a SAF root ====================

/// Scans the roots from index `k`: the first root whose alias equals `rel` or
/// prefixes it followed by `/` hits, giving its index and the rest of `rel`.
/// A root without an alias is skipped.
pub open spec fn match_from(roots: Seq<Seq<char>>, rel: Seq<char>, k: int) -> Option<(int, Seq<char>)>
    decreases roots.len() - k,
{
    if k < 0 || k >= roots.len() {
        None
    } else {
        match tree_alias_of(roots[k]) {
            None => match_from(roots, rel, k + 1),
            Some(a) => if rel == a {
                Some((k, Seq::empty()))
            } else if seq_starts_with(rel, a.push('/')) {
                Some((k, rel.skip((a.len() + 1) as int)))
            } else {
                match_from(roots, rel, k + 1)
            },
        }
    }
}

/// Relative path -> SAF root hit: `(tree_uri, components after the alias)`;
/// an empty path never hits.
pub open spec fn saf_root_match(roots: Seq<Seq<char>>, rel: Seq<char>) -> Option<(int, Seq<char>)> {
    if rel.len() == 0 { None } else { match_from(roots, rel, 0) }
}

/// Root `roots[k]` has an alias `a` and `rel` is `a` or lies under `a/`.
pub open spec fn alias_covers(roots: Seq<Seq<char>>, k: int, rel: Seq<char>) -> bool {
    tree_alias_of(roots[k]) matches Some(a) && (rel == a || (rel.len() > a.len() && rel.take(a.len() as int) == a
        && rel[a.len() as int] == '/'))
}

proof fn lemma_match_from_first(roots: Seq<Seq<char>>, rel: Seq<char>, k: int)
    requires
        0 <= k <= roots.len(),
    ensures
        match match_from(roots, rel, k) {
            Some((j, rest)) => k <= j < roots.len() && alias_covers(roots, j, rel) && (forall|i: int|
                k <= i < j ==> !#[trigger] alias_covers(roots, i, rel)) && ({
                let a = tree_alias_of(roots[j])->0;
                rest == (if rel == a { Seq::<char>::empty() } else { rel.skip((a.len() + 1) as int) })
            }),
            None => forall|i: int| k <= i < roots.len() ==> !#[trigger] alias_covers(roots, i, rel),
        },
    decreases roots.len() - k,
{
    if k < roots.len() {
        lemma_match_from_first(roots, rel, k + 1);
        match tree_alias_of(roots[k]) {
            None => {},
            Some(a) => {
                let pre = a.push('/');
                assert(seq_starts_with(rel, pre) <==> (rel.len() > a.len() && rel.take(a.len() as int) == a
                    && rel[a.len() as int] == '/')) by {
                    if seq_starts_with(rel, pre) {
                        assert(rel.take(a.len() as int) =~= pre.take(a.len() as int));
                        assert(pre.take(a.len() as int) =~= a);
                        assert(rel[a.len() as int] == pre[a.len() as int]);
                    }
                    if rel.len() > a.len() && rel.take(a.len() as int) == a && rel[a.len() as int] == '/' {
                        assert(rel.take(pre.len() as int) =~= pre) by {
                            assert forall|i: int| 0 <= i < pre.len() implies rel.take(pre.len() as int)[i]
                                == pre[i] by {
                                if i < a.len() {
                                    assert(rel.take(a.len() as int)[i] == a[i]);
                                }
                            }
                        }
                    }
                }
            },
        }
    }
}

/// Law: the root a path is mapped onto is the first root whose alias covers
/// the path (the path is the alias itself or lies under `alias/`), with the
/// rest of the path after the alias; a root that does not cover it (with or
/// without an alias) never hides a later one that does; and a non-empty path
/// maps onto nothing only when no root covers it.
pub proof fn lemma_first_covering_root(roots: Seq<Seq<char>>, rel: Seq<char>)
    requires
        rel.len() > 0,
    ensures
        match saf_root_match(roots, rel) {
            Some((j, rest)) => 0 <= j < roots.len() && alias_covers(roots, j, rel) && (forall|i: int|
                0 <= i < j ==> !#[trigger] alias_covers(roots, i, rel)) && ({
                let a = tree_alias_of(roots[j])->0;
                rest == (if rel == a { Seq::<char>::empty() } else { rel.skip((a.len() + 1) as int) })
            }),
            None => forall|i: int| 0 <= i < roots.len() ==> !#[trigger] alias_covers(roots, i, rel),
        },
{
    lemma_match_from_first(roots, rel, 0);
}

/// Maps a relative path onto the first SAF root whose alias it starts with
/// (roots without an alias never match).
pub fn match_saf_root(saf_roots: &[String], rel: &str) -> (r: Option<(String, Vec<String>)>)
    ensures
        r is None <==> saf_root_match(string_views(saf_roots@), rel@) is None,
        r matches Some((root, parts)) ==> {
            let (k, rest) = saf_root_match(string_views(saf_roots@), rel@)->0;
            &&& root@ == saf_roots@[k]@
            &&& string_views(parts@) == components(rest)
        },
{
    let ghost roots = string_views(saf_roots@);
    let relc = chars_of(rel);
    if relc.len() == 0 {
        return None;
    }
    let mut k: usize = 0;
    while k < saf_roots.len()
        invariant
            k <= saf_roots.len(),
            roots == string_views(saf_roots@),
            relc@ == rel@,
            relc@.len() > 0,
            saf_root_match(roots, rel@) == match_from(roots, rel@, k as int),
        decreases saf_roots.len() - k,
    {
        let root = &saf_roots[k];
        let alias = match tree_alias(root.as_str()) {
            Some(a) => a,
            None => {
                k += 1;
                continue;
            },
        };
        let ac = chars_of(alias.as_str());
        if chars_eq(relc.as_slice(), ac.as_slice()) {
            let parts: Vec<String> = Vec::new();
            proof {
                assert(string_views(parts@) =~= components(Seq::<char>::empty()));
            }
            return Some((root.clone(), parts));
        }
        let mut prefix = ac.clone();
        prefix.push('/');
        if crate::text::chars_start_with(relc.as_slice(), prefix.as_slice()) {
            let rest = chars_range(relc.as_slice(), prefix.len(), relc.len());
            proof {
                assert(rest@ =~= rel@.skip((ac@.len() + 1) as int));
            }
            let parts = split_components(rest.as_slice());
            return Some((root.clone(), parts));
        }
        k += 1;
    }
    None
}

// ==================== relay copy naming ====================

/// FNV-1a 64-bit offset basis.
pub const FNV_OFFSET: u64 = 0xcbf2_9ce4_8422_2325;
/// FNV-1a 64-bit prime.
pub const FNV_PRIME: u64 = 0x0000_0100_0000_01b3;

/// FNV-1a 64-bit hash of a byte sequence.
pub open spec fn fnv1a(bytes: Seq<u8>) -> u64
    decreases bytes.len(),
{
    if bytes.len() == 0 {
        FNV_OFFSET
    } else {
        vstd::wrapping::u64_specs::wrapping_mul(fnv1a(bytes.drop_last()) ^ (bytes.last() as u64), FNV_PRIME)
    }
}

/// FNV-1a 64-bit hash of the UTF-8 bytes of `s` (stable across runs and builds).
pub fn fnv1a64(s: &str) -> (h: u64)
    ensures
        h == fnv1a(s.spec_bytes()),
{
    let bytes = s.as_bytes();
    let mut hash: u64 = FNV_OFFSET;
    let mut i: usize = 0;
    while i < bytes.len()
        invariant
            i <= bytes.len(),
            hash == fnv1a(bytes@.take(i as int)),
        decreases bytes.len() - i,
    {
        proof {
            assert(bytes@.take(i + 1).drop_last() =~= bytes@.take(i as int));
        }
        hash = (hash ^ (bytes[i] as u64)).wrapping_mul(FNV_PRIME);
        i += 1;
    }
    proof {
        assert(bytes@.take(bytes.len() as int) =~= bytes@);
    }
    hash
}

/// Lowercase hex digit of a nibble.
pub open spec fn hex_char(n: u64) -> char {
    if n < 10 { ((n + 48) as u8) as char } else { ((n - 10 + 97) as u8) as char }
}

/// Sixteen lowercase hex digits of `h`, most significant first (`{:016x}`).
pub open spec fn hex16(h: u64) -> Seq<char> {
    Seq::new(16, |i: int| hex_char((h >> ((60 - 4 * i) as u64)) & 15))
}

/// Formats `h` as sixteen lowercase hex digits.
pub fn to_hex16(h: u64) -> (s: Vec<char>)
    ensures
        s@ == hex16(h),
{
    let mut s: Vec<char> = Vec::new();
    let mut i: u64 = 0;
    while i < 16
        invariant
            i <= 16,
            s@ == hex16(h).take(i as int),
        decreases 16 - i,
    {
        let sh: u64 = 60 - 4 * i;
        let n = (h >> sh) & 15;
        assert(n < 16) by (bit_vector)
            requires n == (h >> sh) & 15;
        let c = if n < 10 { ((n + 48) as u8) as char } else { ((n - 10 + 97) as u8) as char };
        proof {
            assert(hex16(h).take(i + 1) =~= hex16(h).take(i as int).push(c));
        }
        s.push(c);
        i += 1;
    }
    s
}

/// `dir.join(name)` for a relative `name`: a `/` is inserted unless `dir` is
/// empty or already ends with one.
pub open spec fn join_path(dir: Seq<char>, name: Seq<char>) -> Seq<char> {
    if dir.len() == 0 {
        name
    } else if dir.last() == '/' {
        dir + name
    } else {
        dir.push('/') + name
    }
}

/// Joins a directory and a relative file name.
pub fn join(dir: &str, name: &[char]) -> (p: String)
    ensures
        p@ == join_path(dir@, name@),
{
    let dc = chars_of(dir);
    let mut out: Vec<char> = dc.clone();
    if dc.len() > 0 && dc[dc.len() - 1] != '/' {
        out.push('/');
    }
    let mut i: usize = 0;
    let ghost base = out@;
    while i < name.len()
        invariant
            i <= name.len(),
            out@ == base + name@.take(i as int),
        decreases name.len() - i,
    {
        out.push(name[i]);
        proof {
            assert(base + name@.take(i + 1) =~= (base + name@.take(i as int)).push(name@[i as int]));
        }
        i += 1;
    }
    proof {
        assert(name@.take(name.len() as int) =~= name@);
    }
    string_of(out.as_slice())
}

/// Relay copy path of a source URI: `relay_dir/<fnv1a64(uri) as 16 hex digits>`.
pub fn relay_cache_path(relay_dir: &str, uri: &str) -> (p: String)
    ensures
        p@ == join_path(relay_dir@, hex16(fnv1a(uri.spec_bytes()))),
{
    let name = to_hex16(fnv1a64(uri));
    join(relay_dir, name.as_slice())
}

// ==================== walking a tree ====================

/// An entry of a SAF tree, as the storage bridge reports it.
#[derive(Debug, Clone, PartialEq, Eq)]
pub struct SafEntry {
    /// Display name.
    pub name: String,
    /// Whether it is a directory.
    pub is_dir: bool,
    /// Size in bytes as reported.
    pub size: i64,
    /// MIME type.
    pub mime: String,
    /// Document URI.
    pub uri: String,
    /// Document id within the tree.
    pub document_id: String,
}

/// What a walk to an entry does next. The caller lists the children of a
/// document with the storage bridge and hands them to [`walk_step`].
#[derive(Debug, Clone, PartialEq, Eq)]
pub enum WalkStep {
    /// List the children of this document.
    List { document_id: String },
    /// The walk reached its entry.
    Found(SafEntry),
    /// The walk failed.
    Failed(AppError),
}

/// Index of the first entry named `name`, or -1.
pub open spec fn first_named(children: Seq<SafEntry>, name: Seq<char>) -> int
    decreases children.len(),
{
    if children.len() == 0 {
        -1
    } else if children[0].name@ == name {
        0
    } else {
        let r = first_named(children.drop_first(), name);
        if r < 0 {
            -1
        } else {
            r + 1
        }
    }
}

proof fn lemma_first_named(children: Seq<SafEntry>, name: Seq<char>, i: int)
    requires
        0 <= i <= children.len(),
        forall|k: int| 0 <= k < i ==> (#[trigger] children[k]).name@ != name,
        i < children.len() ==> children[i].name@ == name,
    ensures
        first_named(children, name) == (if i < children.len() { i } else { -1 }),
    decreases i,
{
    if i > 0 {
        let rest = children.drop_first();
        assert forall|k: int| 0 <= k < i - 1 implies (#[trigger] rest[k]).name@ != name by {
            assert(rest[k] == children[k + 1]);
        }
        lemma_first_named(rest, name, i - 1);
    }
}

/// First step of a walk from the tree root along `parts`: with no parts the
/// root itself (a directory named by the tree's alias, else by its URI),
/// otherwise the root's children are listed.
pub fn walk_start(tree_uri: &str, root_doc_id: &str, parts: &[String]) -> (s: WalkStep)
    ensures
        parts.len() == 0 ==> (s matches WalkStep::Found(e) && e.name@ == (match tree_alias_of(tree_uri@) {
            Some(a) => a,
            None => tree_uri@,
        }) && e.is_dir && e.size == 0 && e.mime@ == Seq::<char>::empty() && e.uri@ == tree_uri@
            && e.document_id@ == root_doc_id@),
        parts.len() > 0 ==> (s matches WalkStep::List { document_id } && document_id@ == root_doc_id@),
{
    if parts.len() == 0 {
        let name = match tree_alias(tree_uri) {
            Some(a) => a,
            None => tree_uri.to_owned(),
        };
        WalkStep::Found(SafEntry {
            name,
            is_dir: true,
            size: 0,
            mime: String::new(),
            uri: tree_uri.to_owned(),
            document_id: root_doc_id.to_owned(),
        })
    } else {
        WalkStep::List { document_id: root_doc_id.to_owned() }
    }
}

/// Message of a failed listing during a walk.
pub open spec fn walk_list_failure(tree_uri: Seq<char>, document_id: Seq<char>, e: Seq<char>) -> Seq<char> {
    "saf walk: list_tree("@ + tree_uri + ", "@ + document_id + ") failed (permission may be revoked): "@ + e
}

/// One step of a walk: `listed` is what listing the children of
/// `document_id` gave, and `parts[i]` the name looked for. A failed listing
/// fails the walk; a missing name is not found; the last part is the entry;
/// an earlier part must be a directory, whose children are listed next.
pub fn walk_step(
    tree_uri: &str,
    document_id: &str,
    parts: &[String],
    i: usize,
    listed: Result<Vec<SafEntry>, String>,
) -> (s: WalkStep)
    requires
        i < parts.len(),
    ensures
        s matches WalkStep::Found(e) ==> i + 1 == parts.len() && e.name@ == parts@[i as int]@,
        s matches WalkStep::List { .. } ==> i + 1 < parts.len(),
        match listed {
            Err(e) => s matches WalkStep::Failed(AppError::Plugin(m)) && m@ == walk_list_failure(
                tree_uri@,
                document_id@,
                e@,
            ),
            Ok(children) => {
                let k = first_named(children@, parts@[i as int]@);
                if k < 0 {
                    s matches WalkStep::Failed(AppError::NotFound(m)) && m@ == "'"@ + parts@[i as int]@
                        + "' not found in SAF tree "@ + tree_uri@
                } else if i + 1 == parts.len() {
                    s == WalkStep::Found(children@[k])
                } else if !children@[k].is_dir {
                    s matches WalkStep::Failed(AppError::NotFound(m)) && m@ == "'"@ + children@[k].name@
                        + "' is not a directory in SAF tree "@ + tree_uri@
                } else {
                    s matches WalkStep::List { document_id: d } && d@ == children@[k].document_id@
                }
            },
        },
{
    let children = match listed {
        Ok(c) => c,
        Err(e) => {
            let a = concat("saf walk: list_tree(", tree_uri);
            let b = concat(a.as_str(), ", ");
            let c = concat(b.as_str(), document_id);
            let d = concat(c.as_str(), ") failed (permission may be revoked): ");
            return WalkStep::Failed(AppError::Plugin(concat(d.as_str(), e.as_str())));
        },
    };
    let part = parts[i].as_str();
    let mut k: usize = 0;
    while k < children.len()
        invariant
            k <= children@.len(),
            i < parts@.len(),
            part@ == parts@[i as int]@,
            forall|j: int| 0 <= j < k ==> (#[trigger] children@[j]).name@ != part@,
        ensures
            k <= children@.len(),
            forall|j: int| 0 <= j < k ==> (#[trigger] children@[j]).name@ != part@,
            k < children@.len() ==> children@[k as int].name@ == part@,
        decreases children@.len() - k,
    {
        if str_eq(children[k].name.as_str(), part) {
            break;
        }
        k += 1;
    }
    proof {
        lemma_first_named(children@, part@, k as int);
    }
    if k == children.len() {
        let a = concat("'", part);
        let b = concat(a.as_str(), "' not found in SAF tree ");
        return WalkStep::Failed(AppError::NotFound(concat(b.as_str(), tree_uri)));
    }
    if i + 1 == parts.len() {
        let mut children = children;
        let child = children.swap_remove(k);
        return WalkStep::Found(child);
    }
    if !children[k].is_dir {
        let a = concat("'", children[k].name.as_str());
        let b = concat(a.as_str(), "' is not a directory in SAF tree ");
        return WalkStep::Failed(AppError::NotFound(concat(b.as_str(), tree_uri)));
    }
    WalkStep::List { document_id: children[k].document_id.clone() }
}

// ==================== relay copy progress ====================

/// State of a running copy into the relay directory.
#[derive(Debug, Clone, PartialEq, Eq)]
pub struct CopyStatus {
    /// The copy ended.
    pub finished: bool,
    /// It ended because the user cancelled it.
    pub cancelled: bool,
    /// It ended with this error.
    pub error: Option<String>,
}

/// What a poll of a relay copy decides.
#[derive(Debug, Clone, PartialEq, Eq)]
pub enum CopyPoll {
    /// Still running: poll again after the interval.
    Wait,
    /// Complete: move it to its final name.
    Done,
    /// The copy of `uri` failed.
    Failed(AppError),
}

/// Decision on a poll of the relay copy of `uri`: a running copy is waited
/// for; a cancelled one fails, as does one that reports an error; else it is
/// complete.
pub fn relay_copy_poll(uri: &str, status: &CopyStatus) -> (p: CopyPoll)
    ensures
        !status.finished ==> p == CopyPoll::Wait,
        status.finished && status.cancelled ==> (p matches CopyPoll::Failed(AppError::Plugin(m)) && m@
            == "ensure_relay_copy: relay copy cancelled by user ("@ + uri@ + ")"@),
        status.finished && !status.cancelled && status.error is Some ==> (p matches CopyPoll::Failed(
            AppError::Plugin(m),
        ) && m@ == "ensure_relay_copy: relay copy failed for "@ + uri@ + ": "@ + status.error->0@),
        status.finished && !status.cancelled && status.error is None ==> p == CopyPoll::Done,
{
    if !status.finished {
        return CopyPoll::Wait;
    }
    if status.cancelled {
        let a = concat("ensure_relay_copy: relay copy cancelled by user (", uri);
        return CopyPoll::Failed(AppError::Plugin(concat(a.as_str(), ")")));
    }
    match &status.error {
        Some(err) => {
            let a = concat("ensure_relay_copy: relay copy failed for ", uri);
            let b = concat(a.as_str(), ": ");
            CopyPoll::Failed(AppError::Plugin(concat(b.as_str(), err.as_str())))
        },
        None => CopyPoll::Done,
    }
}

} // verus!
