//! Phone-side HTTP client core: desktop endpoint URLs, query-path encoding,
//! download resume planning and retry decisions, and error-message parsing.
//!
//! The phone is the only HTTP client; the desktop is the server. The network
//! calls themselves are made by the caller; this module decides what to ask for
//! and what an answer means.

use vstd::prelude::*;
use vstd::string::StringSliceAdditionalSpecFns;
use crate::cursor::{Cursor, CursorStore, StoredCursor, FileFingerprint};
use vstd::utf8::{encode_utf8, encode_utf8_decode_utf8, encode_utf8_valid_utf8};
use crate::saf_tree::{absent_from, decoded_text, first_at, hex_digit_value, pct_decode_from};
use crate::server::{decimal, decimal_string};
use crate::text::{
    chars_eq, chars_of, chars_range, concat, digit_prefix, digit_prefix_chars, lower, parse_u64, parse_u64_spec,
    seq_contains, string_of, strip_all_prefix, strip_all_prefix_chars, to_lower, trim_end_char,
    trim_end_chars, trim_start_char, trim_start_chars, trim_ws_start, trim_ws_start_chars,
};

verus! {

/// Default transfer concurrency.
pub const DEFAULT_CONCURRENCY: usize = 3;
/// Lowest transfer concurrency.
pub const MIN_CONCURRENCY: usize = 1;
/// Highest transfer concurrency.
pub const MAX_CONCURRENCY: usize = 8;

/// Desktop file-service endpoint URL:
/// `{base without trailing '/'}/api/plugins/{plugin}/{mount}/{path without leading '/'}`.
pub open spec fn endpoint_url(base: Seq<char>, plugin: Seq<char>, mount: Seq<char>, path: Seq<char>) -> Seq<char> {
    trim_end_char(base, '/') + "/api/plugins/"@ + plugin + "/"@ + mount + "/"@ + trim_start_char(path, '/')
}

fn append_all(out: &mut Vec<char>, cs: &[char])
    ensures
        final(out)@ == old(out)@ + cs@,
{
    let mut i: usize = 0;
    let ghost start = out@;
    while i < cs.len()
        invariant
            i <= cs.len(),
            out@ == start + cs@.take(i as int),
        decreases cs.len() - i,
    {
        out.push(cs[i]);
        proof {
            assert(start + cs@.take(i + 1) =~= (start + cs@.take(i as int)).push(cs@[i as int]));
        }
        i += 1;
    }
    proof {
        assert(cs@.take(cs.len() as int) =~= cs@);
    }
}

/// Builds a desktop file-service endpoint URL (a trailing `/` of `base` and a
/// leading `/` of `path` are tolerated).
pub fn endpoint(base: &str, plugin_id: &str, mount_path: &str, path: &str) -> (url: String)
    ensures
        url@ == endpoint_url(base@, plugin_id@, mount_path@, path@),
{
    let b = trim_end_chars(chars_of(base).as_slice(), '/');
    let p = trim_start_chars(chars_of(path).as_slice(), '/');
    let mut out: Vec<char> = Vec::new();
    append_all(&mut out, b.as_slice());
    append_all(&mut out, chars_of("/api/plugins/").as_slice());
    append_all(&mut out, chars_of(plugin_id).as_slice());
    append_all(&mut out, chars_of("/").as_slice());
    append_all(&mut out, chars_of(mount_path).as_slice());
    append_all(&mut out, chars_of("/").as_slice());
    append_all(&mut out, p.as_slice());
    string_of(out.as_slice())
}

/// Bytes kept literally by [`urlencode_path`]: `A-Z a-z 0-9 - _ . ~ /`.
pub open spec fn url_unreserved(b: u8) -> bool {
    (65 <= b <= 90) || (97 <= b <= 122) || (48 <= b <= 57) || b == 45 || b == 95 || b == 46 || b == 126
        || b == 47
}

/// Uppercase hex digit of a nibble.
pub open spec fn hex_upper(n: u8) -> char {
    if n < 10 { ((n + 48) as u8) as char } else { ((n - 10 + 65) as u8) as char }
}

/// Encoding of one byte: itself when unreserved, else `%XX` (uppercase hex).
pub open spec fn url_encode_byte(b: u8) -> Seq<char> {
    if url_unreserved(b) {
        seq![b as char]
    } else {
        seq!['%', hex_upper(b / 16), hex_upper(b % 16)]
    }
}

/// Query-parameter encoding of a byte sequence.
pub open spec fn url_encode(bytes: Seq<u8>) -> Seq<char>
    decreases bytes.len(),
{
    if bytes.len() == 0 {
        Seq::empty()
    } else {
        url_encode(bytes.drop_last()) + url_encode_byte(bytes.last())
    }
}

fn hex_upper_char(n: u8) -> (c: char)
    requires
        n < 16,
    ensures
        c == hex_upper(n),
{
    if n < 10 { (n + 48) as char } else { (n - 10 + 65) as char }
}

/// Relative path -> URL query value: keeps `/` and `A-Z a-z 0-9 - _ . ~`,
/// percent-encodes every other UTF-8 byte.
pub fn urlencode_path(path: &str) -> (r: String)
    ensures
        r@ == url_encode(path.spec_bytes()),
{
    let bytes = path.as_bytes();
    let mut out: Vec<char> = Vec::new();
    let mut i: usize = 0;
    while i < bytes.len()
        invariant
            i <= bytes.len(),
            out@ == url_encode(bytes@.take(i as int)),
        decreases bytes.len() - i,
    {
        let b = bytes[i];
        let ghost before = out@;
        if (65 <= b && b <= 90) || (97 <= b && b <= 122) || (48 <= b && b <= 57) || b == 45 || b == 95
            || b == 46 || b == 126 || b == 47 {
            out.push(b as char);
        } else {
            out.push('%');
            out.push(hex_upper_char(b / 16));
            out.push(hex_upper_char(b % 16));
        }
        proof {
            assert(bytes@.take(i + 1).drop_last() =~= bytes@.take(i as int));
            assert(out@ =~= before + url_encode_byte(b));
        }
        i += 1;
    }
    proof {
        assert(bytes@.take(bytes.len() as int) =~= bytes@);
    }
    string_of(out.as_slice())
}

/// [`url_encode`] taken from the first byte on.
spec fn url_encode_front(bytes: Seq<u8>) -> Seq<char>
    decreases bytes.len(),
{
    if bytes.len() == 0 {
        Seq::empty()
    } else {
        url_encode_byte(bytes[0]) + url_encode_front(bytes.drop_first())
    }
}

proof fn lemma_front_push(b: Seq<u8>, x: u8)
    ensures
        url_encode_front(b.push(x)) == url_encode_front(b) + url_encode_byte(x),
    decreases b.len(),
{
    if b.len() == 0 {
        assert(b.push(x).drop_first() =~= Seq::<u8>::empty());
        assert(b.push(x)[0] == x);
        assert(url_encode_front(Seq::<u8>::empty()) == Seq::<char>::empty());
        assert(url_encode_front(b.push(x)) =~= url_encode_byte(x));
    } else {
        lemma_front_push(b.drop_first(), x);
        assert(b.push(x).drop_first() =~= b.drop_first().push(x));
        assert(url_encode_front(b.push(x)) =~= url_encode_front(b) + url_encode_byte(x));
    }
}

proof fn lemma_url_encode_front(bytes: Seq<u8>)
    ensures
        url_encode(bytes) == url_encode_front(bytes),
    decreases bytes.len(),
{
    if bytes.len() > 0 {
        lemma_url_encode_front(bytes.drop_last());
        lemma_front_push(bytes.drop_last(), bytes.last());
        assert(bytes.drop_last().push(bytes.last()) =~= bytes);
    }
}

proof fn lemma_encode_concat(u: Seq<char>, v: Seq<char>)
    ensures
        encode_utf8(u + v) == encode_utf8(u) + encode_utf8(v),
    decreases u.len(),
{
    if u.len() == 0 {
        assert(u + v =~= v);
        assert(encode_utf8(u) + encode_utf8(v) =~= encode_utf8(v));
    } else {
        lemma_encode_concat(u.drop_first(), v);
        assert((u + v).drop_first() =~= u.drop_first() + v);
        assert((u + v)[0] == u[0]);
        assert(encode_utf8(u + v) =~= encode_utf8(u) + encode_utf8(v));
    }
}

proof fn lemma_encode_ascii_char(b: u8)
    requires
        b < 128,
    ensures
        encode_utf8(seq![b as char]) == seq![b],
{
    let c = b as char;
    assert((c as u32) == (b as u32));
    assert(((b as u32) & 0x7Fu32) as u8 == b) by (bit_vector)
        requires b < 128u8;
    assert(seq![c].drop_first() =~= Seq::<char>::empty());
    assert(seq![c][0] == c);
    assert(vstd::utf8::has_width_1_encoding(c as u32));
    assert(vstd::utf8::encode_scalar(c as u32) == seq![b]);
    assert(encode_utf8(Seq::<char>::empty()) == Seq::<u8>::empty());
    assert(encode_utf8(seq![c]) =~= seq![b]);
}

proof fn lemma_hex_upper(n: u8)
    requires
        n < 16,
    ensures
        (hex_upper(n) as u32) < 128,
        hex_digit_value((hex_upper(n) as u32) as u8) == Some(n),
        encode_utf8(seq![hex_upper(n)]) == seq![(hex_upper(n) as u32) as u8],
{
    let d: u8 = if n < 10 { (n + 48) as u8 } else { (n - 10 + 65) as u8 };
    assert(hex_upper(n) == d as char);
    lemma_encode_ascii_char(d);
}

proof fn lemma_pct_shift(a: Seq<u8>, y: Seq<u8>, k: int)
    requires
        0 <= k,
    ensures
        pct_decode_from(a + y, a.len() + k) == pct_decode_from(y, k),
    decreases y.len() - k,
{
    let z = a + y;
    let i = a.len() + k;
    if k < y.len() {
        assert(z[i] == y[k]);
        if k + 1 < y.len() {
            assert(z[i + 1] == y[k + 1]);
        }
        if k + 2 < y.len() {
            assert(z[i + 2] == y[k + 2]);
        }
        lemma_pct_shift(a, y, k + 1);
        if k + 3 <= y.len() {
            lemma_pct_shift(a, y, k + 3);
        }
    }
}

proof fn lemma_decode_url_encoded(bytes: Seq<u8>)
    ensures
        pct_decode_from(encode_utf8(url_encode_front(bytes)), 0) == bytes,
    decreases bytes.len(),
{
    if bytes.len() == 0 {
        assert(encode_utf8(url_encode_front(bytes)) =~= Seq::<u8>::empty());
    } else {
        let b = bytes[0];
        let u = url_encode_byte(b);
        let v = url_encode_front(bytes.drop_first());
        lemma_decode_url_encoded(bytes.drop_first());
        lemma_encode_concat(u, v);
        let ev = encode_utf8(v);
        if url_unreserved(b) {
            lemma_encode_ascii_char(b);
            let e = seq![b] + ev;
            lemma_pct_shift(seq![b], ev, 0);
            assert(e[0] == b);
            assert(pct_decode_from(e, 0) == seq![b] + pct_decode_from(e, 1));
            assert(pct_decode_from(e, 0) =~= bytes);
        } else {
            let hi = b / 16;
            let lo = b % 16;
            lemma_hex_upper(hi);
            lemma_hex_upper(lo);
            let h1 = (hex_upper(hi) as u32) as u8;
            let h2 = (hex_upper(lo) as u32) as u8;
            lemma_encode_ascii_char(37u8);
            assert(('%' as u32) == 37u32);
            assert(seq!['%'] == seq![37u8 as char]);
            assert(u =~= seq!['%'] + (seq![hex_upper(hi)] + seq![hex_upper(lo)]));
            lemma_encode_concat(seq!['%'], seq![hex_upper(hi)] + seq![hex_upper(lo)]);
            lemma_encode_concat(seq![hex_upper(hi)], seq![hex_upper(lo)]);
            let eu = seq![37u8, h1, h2];
            assert(encode_utf8(u) =~= eu);
            let e = eu + ev;
            lemma_pct_shift(eu, ev, 0);
            assert(e[0] == 37u8 && e[1] == h1 && e[2] == h2);
            assert((hi * 16 + lo) as u8 == b);
            assert(pct_decode_from(e, 0) == seq![b] + pct_decode_from(e, 3));
            assert(pct_decode_from(e, 0) =~= bytes);
        }
    }
}

/// Decoding what [`urlencode_path`] produced gives the path back: the
/// encoding of the path's UTF-8 bytes, percent-decoded (as
/// [`crate::saf_tree::percent_decode`] does) and read as UTF-8, is the path.
pub proof fn lemma_urlencode_round_trip(path: Seq<char>)
    ensures
        decoded_text(pct_decode_from(encode_utf8(url_encode(encode_utf8(path))), 0)) == path,
{
    let b = encode_utf8(path);
    lemma_url_encode_front(b);
    lemma_decode_url_encoded(b);
    encode_utf8_valid_utf8(path);
    encode_utf8_decode_utf8(path);
}

/// A character a query value may hold after [`urlencode_path`]: `A-Z a-z
/// 0-9 - _ . ~ /`, or the `%` that starts an escape.
pub open spec fn url_query_char(c: char) -> bool {
    ('A' <= c <= 'Z') || ('a' <= c <= 'z') || ('0' <= c <= '9') || c == '-' || c == '_' || c == '.' || c == '~'
        || c == '/' || c == '%'
}

/// An uppercase hex digit.
pub open spec fn upper_hex_digit(c: char) -> bool {
    ('0' <= c <= '9') || ('A' <= c <= 'F')
}

/// Value of an uppercase hex digit.
pub open spec fn upper_hex_value(c: char) -> int {
    if c <= '9' {
        c as int - '0' as int
    } else {
        c as int - 'A' as int + 10
    }
}

proof fn lemma_hex_upper_digit(n: u8)
    requires
        n < 16,
    ensures
        upper_hex_digit(hex_upper(n)),
        upper_hex_value(hex_upper(n)) == n,
{
    let d: u8 = if n < 10 { (n + 48) as u8 } else { (n - 10 + 65) as u8 };
    assert(hex_upper(n) == d as char);
    assert((d as char) as int == d as int);
}

/// Law: one byte of a path is copied as itself exactly when it is one of
/// `A-Z a-z 0-9 - _ . ~ /`; every other byte becomes `%` and two uppercase
/// hex digits whose value is the byte.
pub proof fn lemma_url_encode_byte_law(b: u8)
    ensures
        ((65 <= b <= 90) || (97 <= b <= 122) || (48 <= b <= 57) || b == 45 || b == 95 || b == 46 || b == 126
            || b == 47) ==> url_encode_byte(b) == seq![b as char],
        !((65 <= b <= 90) || (97 <= b <= 122) || (48 <= b <= 57) || b == 45 || b == 95 || b == 46 || b == 126
            || b == 47) ==> ({
            let e = url_encode_byte(b);
            &&& e.len() == 3
            &&& e[0] == '%'
            &&& upper_hex_digit(e[1]) && upper_hex_digit(e[2])
            &&& upper_hex_value(e[1]) * 16 + upper_hex_value(e[2]) == b
        }),
{
    lemma_hex_upper_digit(b / 16);
    lemma_hex_upper_digit(b % 16);
}

/// Law: whatever the bytes, their encoding holds only `A-Z a-z 0-9 - _ . ~
/// /` and `%` (so no `&`, `?`, `#`, `=`, `+` or space can cut or change the
/// query).
pub proof fn lemma_url_encode_alphabet(bytes: Seq<u8>)
    ensures
        forall|i: int| 0 <= i < url_encode(bytes).len() ==> url_query_char(#[trigger] url_encode(bytes)[i]),
    decreases bytes.len(),
{
    if bytes.len() > 0 {
        let init = bytes.drop_last();
        let b = bytes.last();
        lemma_url_encode_alphabet(init);
        lemma_url_encode_byte_law(b);
        let e = url_encode_byte(b);
        assert forall|i: int| 0 <= i < e.len() implies url_query_char(#[trigger] e[i]) by {
            if e.len() == 1 {
                assert((b as char) as int == b as int);
            } else {
                assert(e[i] == '%' || upper_hex_digit(e[i]));
            }
        }
        let r = url_encode(bytes);
        assert(r == url_encode(init) + e);
        assert forall|i: int| 0 <= i < r.len() implies url_query_char(#[trigger] r[i]) by {
            if i < url_encode(init).len() {
                assert(r[i] == url_encode(init)[i]);
            } else {
                assert(r[i] == e[i - url_encode(init).len()]);
            }
        }
    }
}

/// `i` is the first index at which `needle` occurs in `hay`.
pub open spec fn first_sub_at(hay: Seq<char>, needle: Seq<char>, i: int) -> bool {
    &&& 0 <= i <= hay.len() - needle.len()
    &&& hay.subrange(i, i + needle.len()) == needle
    &&& forall|j: int| 0 <= j < i ==> #[trigger] hay.subrange(j, j + needle.len()) != needle
}

/// Server-side received offset quoted in a 409 message ("... has N bytes ..."):
/// after the first `has` (ASCII case-insensitive), skip white space, every
/// leading `bytes:` and white space again, then parse the leading digits.
pub open spec fn expected_offset_of(msg: Seq<char>) -> Option<u64> {
    let l = lower(msg);
    if !seq_contains(l, "has"@) {
        None
    } else {
        let i = choose|i: int| first_sub_at(l, "has"@, i);
        let t = trim_ws_start(strip_all_prefix(trim_ws_start(l.skip(i + 3)), "bytes:"@));
        parse_u64_spec(digit_prefix(t))
    }
}

/// Finds the first occurrence of `needle`.
fn find_sub(hay: &[char], needle: &[char]) -> (r: Option<usize>)
    requires
        needle.len() > 0,
    ensures
        r matches Some(i) ==> first_sub_at(hay@, needle@, i as int),
        r is None ==> !seq_contains(hay@, needle@),
{
    if needle.len() > hay.len() {
        return None;
    }
    let last = hay.len() - needle.len();
    let mut i: usize = 0;
    while i <= last
        invariant
            needle.len() > 0,
            needle.len() <= hay.len(),
            last == hay.len() - needle.len(),
            i <= last + 1,
            forall|k: int| 0 <= k < i ==> #[trigger] hay@.subrange(k, k + needle.len()) != needle@,
        decreases last + 1 - i,
    {
        let window = chars_range(hay, i, i + needle.len());
        if chars_eq(window.as_slice(), needle) {
            return Some(i);
        }
        i += 1;
    }
    None
}

/// Extracts the server's received offset from a 409 offset-mismatch message.
pub fn extract_expected_offset(msg: &str) -> (r: Option<u64>)
    ensures
        r == expected_offset_of(msg@),
{
    proof {
        reveal_strlit("has");
        reveal_strlit("bytes:");
    }
    let lower_cs = to_lower(chars_of(msg).as_slice());
    let needle = chars_of("has");
    assert(needle@.len() == 3);
    let i = match find_sub(lower_cs.as_slice(), needle.as_slice()) {
        Some(i) => i,
        None => return None,
    };
    proof {
        let l = lower(msg@);
        assert(seq_contains(l, "has"@));
        let c = choose|j: int| first_sub_at(l, "has"@, j);
        if c < i {
            assert(lower_cs@.subrange(c, c + 3) != needle@);
        } else if c > i {
            assert(l.subrange(i as int, i + 3) != "has"@);
        }
        assert(c == i);
    }
    assert(first_sub_at(lower_cs@, needle@, i as int));
    assert(i + needle@.len() <= lower_cs@.len());
    assert(needle@.len() == 3);
    assert(i + 3 <= lower_cs.len());
    let rest = chars_range(lower_cs.as_slice(), i + 3, lower_cs.len());
    let t1 = trim_ws_start_chars(rest.as_slice());
    let t2 = strip_all_prefix_chars(t1.as_slice(), chars_of("bytes:").as_slice());
    let t3 = trim_ws_start_chars(t2.as_slice());
    let digits = digit_prefix_chars(t3.as_slice());
    parse_u64(digits.as_slice())
}

/// Fingerprint from HEAD response headers: the size from `X-File-Size`, else
/// from `Content-Length`, else 0; the mtime from `X-File-Mtime`, else 0. A header
/// is `None` when absent or not visible ASCII.
pub open spec fn fingerprint_from(size: Option<Seq<char>>, length: Option<Seq<char>>, mtime: Option<Seq<char>>) -> FileFingerprint {
    let s1 = match size { Some(v) => parse_u64_spec(v), None => None };
    let s2 = match length { Some(v) => parse_u64_spec(v), None => None };
    let m = match mtime { Some(v) => parse_u64_spec(v), None => None };
    FileFingerprint {
        size: match s1 { Some(x) => x, None => match s2 { Some(y) => y, None => 0 } },
        mtime: match m { Some(x) => x, None => 0 },
    }
}

fn opt_chars(h: Option<&str>) -> (r: Option<Vec<char>>)
    ensures
        match h { Some(v) => r matches Some(c) && c@ == v@, None => r is None },
{
    match h {
        Some(v) => Some(chars_of(v)),
        None => None,
    }
}

fn parse_opt(h: Option<&str>) -> (r: Option<u64>)
    ensures
        r == (match h { Some(v) => parse_u64_spec(v@), None => None }),
{
    match opt_chars(h) {
        Some(c) => parse_u64(c.as_slice()),
        None => None,
    }
}

/// Parses the fingerprint headers of a HEAD response.
pub fn fingerprint_from_headers(x_file_size: Option<&str>, content_length: Option<&str>, x_file_mtime: Option<&str>) -> (fp: FileFingerprint)
    ensures
        fp == fingerprint_from(
            match x_file_size { Some(v) => Some(v@), None => None },
            match content_length { Some(v) => Some(v@), None => None },
            match x_file_mtime { Some(v) => Some(v@), None => None },
        ),
{
    let size = match parse_opt(x_file_size) {
        Some(s) => s,
        None => match parse_opt(content_length) {
            Some(s) => s,
            None => 0,
        },
    };
    let mtime = match parse_opt(x_file_mtime) {
        Some(m) => m,
        None => 0,
    };
    FileFingerprint { size, mtime }
}

/// Result of a HEAD request: a non-2xx status is an HTTP error naming the
/// URL; otherwise the fingerprint of the headers.
pub fn head_fingerprint_result(
    status: u16,
    url: &str,
    x_file_size: Option<&str>,
    content_length: Option<&str>,
    x_file_mtime: Option<&str>,
) -> (r: Result<FileFingerprint, DownloadError>)
    ensures
        !(200 <= status <= 299) ==> (r matches Err(DownloadError::Http { status: s, url: u }) && s == status && u@ == url@),
        200 <= status <= 299 ==> r == Ok::<FileFingerprint, DownloadError>(fingerprint_from(
            match x_file_size { Some(v) => Some(v@), None => None },
            match content_length { Some(v) => Some(v@), None => None },
            match x_file_mtime { Some(v) => Some(v@), None => None },
        )),
{
    if !(200 <= status && status <= 299) {
        return Err(DownloadError::Http { status, url: url.to_owned() });
    }
    Ok(fingerprint_from_headers(x_file_size, content_length, x_file_mtime))
}

/// How a download attempt starts.
#[derive(Debug, Clone, Copy, PartialEq, Eq)]
pub struct DownloadStart {
    /// Total size to report (the HEAD size when known, else the declared size).
    pub total: u64,
    /// Resume offset (Range start; 0 = full download, the `.part` is truncated).
    pub offset: u64,
}

/// Resume plan: restore the stored position against the total (a stale one
/// restarts at 0), restart at 0 when the stored fingerprint differs from the
/// fresh one, and clamp to the total.
pub open spec fn download_start(stored: Option<StoredCursor>, fp: FileFingerprint, declared_total: u64) -> DownloadStart {
    let total = if fp.size > 0 { fp.size } else { declared_total };
    let pos = match stored { Some(s) => s.position, None => 0 };
    let restored = if total == 0 || pos <= total { pos } else { 0 };
    let kept_total = if total == 0 || pos <= total { total } else { 0 };
    let changed = match stored {
        Some(s) => match s.fingerprint { Some(prev) => prev != fp, None => false },
        None => false,
    };
    let position = if changed { 0 } else { restored };
    DownloadStart {
        total,
        offset: if kept_total != 0 && position > kept_total { kept_total } else { position },
    }
}

/// A source whose fingerprint changed since the cursor was stored is
/// downloaded again from the start.
pub proof fn lemma_changed_source_restarts(stored: StoredCursor, prev: FileFingerprint, fp: FileFingerprint, declared_total: u64)
    requires
        stored.fingerprint == Some(prev),
        prev != fp,
    ensures
        download_start(Some(stored), fp, declared_total).offset == 0,
{
}

/// An unchanged source resumes where the cursor stopped, while that is
/// within the known size.
pub proof fn lemma_unchanged_source_resumes(stored: StoredCursor, fp: FileFingerprint, declared_total: u64)
    requires
        stored.fingerprint == Some(fp),
        fp.size > 0,
        stored.position <= fp.size,
    ensures
        download_start(Some(stored), fp, declared_total).offset == stored.position,
{
}

/// Plans the start of a download attempt from the stored cursor and the HEAD fingerprint.
pub fn plan_download_start(stored: Option<StoredCursor>, fp: FileFingerprint, declared_total: u64) -> (d: DownloadStart)
    ensures
        d == download_start(stored, fp, declared_total),
{
    let total = if fp.size > 0 { fp.size } else { declared_total };
    let pos = match stored {
        Some(s) => s.position,
        None => 0,
    };
    let mut cursor = match Cursor::restore(pos, total) {
        Ok(c) => c,
        Err(_) => Cursor::new(0),
    };
    match stored {
        Some(s) => match s.fingerprint {
            Some(prev) => {
                if prev.size != fp.size || prev.mtime != fp.mtime {
                    cursor.position = 0;
                }
            },
            None => {},
        },
        None => {},
    }
    DownloadStart { total, offset: cursor.effective_offset() }
}

/// A download to run: where from, with which credentials, where the bytes
/// go while they arrive and where the finished file goes.
#[derive(Debug, Clone, PartialEq, Eq)]
pub struct DownloadRequest {
    /// GET endpoint (`{base}/api/plugins/{plugin}/{mount}/file?path=..`).
    pub url: String,
    /// Authorization header value (may be empty).
    pub auth: String,
    /// `.part` file written while downloading (its directory must exist).
    pub dest_path: String,
    /// Final name the `.part` file is renamed to.
    pub final_path: String,
    /// Declared total size (0: unknown).
    pub total: u64,
    /// Public download copy (display name, MIME type), if any.
    pub media: Option<(String, String)>,
}

/// `Range` header of a download resumed at `offset`: `bytes={offset}-`;
/// none for a download from the start.
pub fn range_header(offset: u64) -> (h: Option<String>)
    ensures
        offset == 0 ==> h is None,
        offset > 0 ==> (h matches Some(v) && v@ == "bytes="@ + decimal(offset as nat) + "-"@),
{
    if offset == 0 {
        None
    } else {
        let a = concat("bytes=", decimal_string(offset).as_str());
        Some(concat(a.as_str(), "-"))
    }
}

/// Whether a GET answer is usable: a resumed request accepts 206 or 200, a full
/// one any 2xx.
pub open spec fn download_status_ok(status: u16, offset: u64) -> bool {
    if offset > 0 { status == 206 || status == 200 } else { 200 <= status <= 299 }
}

/// Accounting of one received chunk of `n` bytes written at `position`:
/// the position moves past it, and the stored cursor of `task_id` records
/// that position with the fingerprint the attempt started from (so that a
/// later attempt resumes there, or restarts if the source changed).
pub fn on_chunk(store: &mut CursorStore, task_id: &str, position: u64, n: u64, fingerprint: FileFingerprint) -> (p: u64)
    requires
        position + n <= u64::MAX,
    ensures
        p == position + n,
        final(store)@ == old(store)@.insert(task_id@, StoredCursor { position: p, fingerprint: Some(fingerprint) }),
{
    let p = position + n;
    store.upsert(task_id, StoredCursor { position: p, fingerprint: Some(fingerprint) });
    p
}

/// Whether a GET answer is usable.
pub fn download_response_ok(status: u16, offset: u64) -> (r: bool)
    ensures
        r == download_status_ok(status, offset),
{
    if offset > 0 {
        status == 206 || status == 200
    } else {
        200 <= status && status <= 299
    }
}

/// Text of a download failure.
pub open spec fn download_error_text(e: DownloadError) -> Seq<char> {
    match e {
        DownloadError::Http { status, url } => "download HTTP "@ + decimal(status as nat) + " for "@ + url@,
        DownloadError::Network(m) => "download network error: "@ + m@,
        DownloadError::FingerprintMismatch(a, b) => "source fingerprint changed (size "@ + decimal(a as nat) + "->"@
            + decimal(b as nat) + "); abandon stale cursor"@,
        DownloadError::Cancelled => "download cancelled"@,
        DownloadError::DuplicateName(p) => "destination already exists: "@ + p@,
        DownloadError::Io(m) => "download io error: "@ + m@,
    }
}

impl DownloadError {
    /// Text of the failure.
    pub fn message(&self) -> (m: String)
        ensures
            m@ == download_error_text(*self),
    {
        match self {
            DownloadError::Http { status, url } => {
                let a = concat("download HTTP ", decimal_string(*status as u64).as_str());
                let b = concat(a.as_str(), " for ");
                concat(b.as_str(), url.as_str())
            },
            DownloadError::Network(m) => concat("download network error: ", m.as_str()),
            DownloadError::FingerprintMismatch(a, b) => {
                let x = concat("source fingerprint changed (size ", decimal_string(*a).as_str());
                let y = concat(x.as_str(), "->");
                let z = concat(y.as_str(), decimal_string(*b).as_str());
                concat(z.as_str(), "); abandon stale cursor")
            },
            DownloadError::Cancelled => "download cancelled".to_owned(),
            DownloadError::DuplicateName(p) => concat("destination already exists: ", p.as_str()),
            DownloadError::Io(m) => concat("download io error: ", m.as_str()),
        }
    }
}

/// Download errors.
#[derive(Debug, Clone, PartialEq, Eq)]
pub enum DownloadError {
    /// Non-2xx answer.
    Http { status: u16, url: String },
    /// Request or stream failure (retryable: the cursor is kept).
    Network(String),
    /// The source fingerprint changed.
    FingerprintMismatch(u64, u64),
    /// Cancelled (cursor kept for resume).
    Cancelled,
    /// The final name is taken (the `.part` is kept).
    DuplicateName(String),
    /// Local I/O failure.
    Io(String),
}

/// What to do after a failed download attempt.
#[derive(Debug, Clone, PartialEq, Eq)]
pub enum DownloadRetry {
    /// Try again after a short backoff; the count of failed attempts so far.
    Retry { attempts: u32 },
    /// Stop with this error.
    GiveUp(DownloadError),
}

/// Retry rule: a cancelled transfer stops as `Cancelled`; a network error is
/// retried until `max(max_attempts, 1)` attempts have failed; any other error
/// stops at once.
pub open spec fn download_retry(attempts: u32, max_attempts: u32, cancelled: bool, err: DownloadError) -> DownloadRetry {
    let max = if max_attempts < 1 { 1 } else { max_attempts };
    let n = attempts + 1;
    if cancelled {
        DownloadRetry::GiveUp(DownloadError::Cancelled)
    } else if !(err is Network) || n >= max {
        DownloadRetry::GiveUp(err)
    } else {
        DownloadRetry::Retry { attempts: n as u32 }
    }
}

/// Decides what follows a failed download attempt (`attempts` failures before this one).
pub fn after_download_failure(attempts: u32, max_attempts: u32, cancelled: bool, err: DownloadError) -> (r: DownloadRetry)
    requires
        attempts < max_attempts || attempts == 0,
    ensures
        r == download_retry(attempts, max_attempts, cancelled, err),
{
    if cancelled {
        return DownloadRetry::GiveUp(DownloadError::Cancelled);
    }
    let max = if max_attempts < 1 { 1 } else { max_attempts };
    let retryable = match err {
        DownloadError::Network(_) => true,
        _ => false,
    };
    let n = attempts + 1;
    if !retryable || n >= max {
        DownloadRetry::GiveUp(err)
    } else {
        DownloadRetry::Retry { attempts: n }
    }
}

/// Law: a download is never retried more often than allowed: a retry always
/// leaves the attempt count below the maximum.
pub proof fn lemma_retry_bounded(attempts: u32, max_attempts: u32, cancelled: bool, err: DownloadError)
    requires
        attempts < max_attempts || attempts == 0,
    ensures
        download_retry(attempts, max_attempts, cancelled, err) matches DownloadRetry::Retry { attempts: n }
            ==> n == attempts + 1 && n < max_attempts,
{
}

} // verus!
