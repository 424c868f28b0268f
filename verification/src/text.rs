//! Character-level string helpers shared by the path, URL and wire modules.

use vstd::prelude::*;

verus! {

/// Appends one character (std `String::push`).
#[verifier::external_body]
pub(crate) fn push_char(s: &mut String, c: char)
    ensures
        final(s)@ == old(s)@.push(c),
{
    s.push(c);
}

/// The characters of `s`, in order.
pub fn chars_of(s: &str) -> (v: Vec<char>)
    ensures
        v@ == s@,
{
    let mut v: Vec<char> = Vec::new();
    for c in it: s.chars()
        invariant
            v@ == it.seq().take(it.index() as int),
            it.seq() == s@,
    {
        v.push(c);
    }
    v
}

/// `a` followed by `b`.
pub fn concat(a: &str, b: &str) -> (s: String)
    ensures
        s@ == a@ + b@,
{
    let mut v = chars_of(a);
    let w = chars_of(b);
    let ghost base = v@;
    let mut i: usize = 0;
    while i < w.len()
        invariant
            i <= w.len(),
            v@ == base + w@.take(i as int),
        decreases w.len() - i,
    {
        v.push(w[i]);
        proof {
            assert(base + w@.take(i + 1) =~= (base + w@.take(i as int)).push(w@[i as int]));
        }
        i += 1;
    }
    proof {
        assert(w@.take(w.len() as int) =~= w@);
    }
    string_of(v.as_slice())
}

/// A string holding exactly `cs`.
pub fn string_of(cs: &[char]) -> (s: String)
    ensures
        s@ == cs@,
{
    let mut s = String::new();
    let mut i: usize = 0;
    while i < cs.len()
        invariant
            i <= cs.len(),
            s@ == cs@.take(i as int),
        decreases cs.len() - i,
    {
        push_char(&mut s, cs[i]);
        assert(cs@.take(i + 1) == cs@.take(i as int).push(cs@[i as int]));
        i += 1;
    }
    assert(cs@.take(cs.len() as int) == cs@);
    s
}

} // verus!

verus! {

/// Whether two strings hold the same characters.
pub fn str_eq(a: &str, b: &str) -> (r: bool)
    ensures
        r == (a@ == b@),
{
    let x = chars_of(a);
    let y = chars_of(b);
    chars_eq(x.as_slice(), y.as_slice())
}

/// Whether two character slices are equal.
pub fn chars_eq(a: &[char], b: &[char]) -> (r: bool)
    ensures
        r == (a@ == b@),
{
    if a.len() != b.len() {
        return false;
    }
    let mut i: usize = 0;
    while i < a.len()
        invariant
            a.len() == b.len(),
            i <= a.len(),
            forall|j: int| 0 <= j < i ==> a@[j] == b@[j],
        decreases a.len() - i,
    {
        if a[i] != b[i] {
            return false;
        }
        i += 1;
    }
    assert(a@ =~= b@);
    true
}

/// `p` is a prefix of `s`.
pub open spec fn seq_starts_with(s: Seq<char>, p: Seq<char>) -> bool {
    p.len() <= s.len() && s.subrange(0, p.len() as int) == p
}

/// `p` is a suffix of `s`.
pub open spec fn seq_ends_with(s: Seq<char>, p: Seq<char>) -> bool {
    p.len() <= s.len() && s.subrange(s.len() - p.len(), s.len() as int) == p
}

/// Whether `p` is a prefix of `s`.
pub fn chars_start_with(s: &[char], p: &[char]) -> (r: bool)
    ensures
        r == seq_starts_with(s@, p@),
{
    if p.len() > s.len() {
        return false;
    }
    let mut i: usize = 0;
    while i < p.len()
        invariant
            p.len() <= s.len(),
            i <= p.len(),
            forall|j: int| 0 <= j < i ==> s@[j] == p@[j],
        decreases p.len() - i,
    {
        if s[i] != p[i] {
            assert(s@.subrange(0, p.len() as int)[i as int] != p@[i as int]);
            return false;
        }
        i += 1;
    }
    assert(s@.subrange(0, p.len() as int) =~= p@);
    true
}

/// Whether `p` is a suffix of `s`.
pub fn chars_end_with(s: &[char], p: &[char]) -> (r: bool)
    ensures
        r == seq_ends_with(s@, p@),
{
    if p.len() > s.len() {
        return false;
    }
    let off = s.len() - p.len();
    let mut i: usize = 0;
    while i < p.len()
        invariant
            p.len() <= s.len(),
            off == s.len() - p.len(),
            i <= p.len(),
            forall|j: int| 0 <= j < i ==> s@[off + j] == p@[j],
        decreases p.len() - i,
    {
        if s[off + i] != p[i] {
            assert(s@.subrange(off as int, s.len() as int)[i as int] != p@[i as int]);
            return false;
        }
        i += 1;
    }
    assert(s@.subrange(off as int, s.len() as int) =~= p@);
    true
}

/// Copies `cs[lo..hi]` into a new vector.
pub fn chars_range(cs: &[char], lo: usize, hi: usize) -> (v: Vec<char>)
    requires
        lo <= hi <= cs.len(),
    ensures
        v@ == cs@.subrange(lo as int, hi as int),
{
    let mut v: Vec<char> = Vec::new();
    let mut i = lo;
    while i < hi
        invariant
            lo <= i <= hi <= cs.len(),
            v@ == cs@.subrange(lo as int, i as int),
        decreases hi - i,
    {
        v.push(cs[i]);
        assert(cs@.subrange(lo as int, i + 1) == cs@.subrange(lo as int, i as int).push(cs@[i as int]));
        i += 1;
    }
    v
}

} // verus!

verus! {

// ==================== ASCII case ====================

/// ASCII lowercase of one character (other characters unchanged).
pub open spec fn lower_char(c: char) -> char {
    if 'A' <= c <= 'Z' { (((c as u8) + 32) as u8) as char } else { c }
}

/// ASCII lowercase of a character sequence.
pub open spec fn lower(s: Seq<char>) -> Seq<char> {
    s.map_values(|c: char| lower_char(c))
}

/// ASCII lowercase of one character.
pub fn to_lower_char(c: char) -> (r: char)
    ensures
        r == lower_char(c),
{
    if 'A' <= c && c <= 'Z' {
        ((c as u8) + 32) as char
    } else {
        c
    }
}

/// ASCII lowercase of a character slice.
pub fn to_lower(cs: &[char]) -> (v: Vec<char>)
    ensures
        v@ == lower(cs@),
{
    let mut v: Vec<char> = Vec::new();
    let mut i: usize = 0;
    while i < cs.len()
        invariant
            i <= cs.len(),
            v@ == lower(cs@.take(i as int)),
        decreases cs.len() - i,
    {
        v.push(to_lower_char(cs[i]));
        proof {
            assert(lower(cs@.take(i + 1)) =~= lower(cs@.take(i as int)).push(lower_char(cs@[i as int])));
        }
        i += 1;
    }
    proof {
        assert(cs@.take(cs.len() as int) =~= cs@);
    }
    v
}

// ==================== substring search ====================

/// `needle` occurs in `hay`.
pub open spec fn seq_contains(hay: Seq<char>, needle: Seq<char>) -> bool {
    exists|i: int| 0 <= i <= hay.len() - needle.len() && #[trigger] hay.subrange(i, i + needle.len()) == needle
}

/// Whether `needle` occurs in `hay`.
pub fn chars_contain(hay: &[char], needle: &[char]) -> (r: bool)
    ensures
        r == seq_contains(hay@, needle@),
{
    if needle.len() > hay.len() {
        return false;
    }
    let last = hay.len() - needle.len();
    let mut i: usize = 0;
    while i <= last
        invariant
            last == hay.len() - needle.len(),
            i <= last + 1,
            forall|k: int| 0 <= k < i ==> #[trigger] hay@.subrange(k, k + needle.len()) != needle@,
        decreases last + 1 - i,
    {
        let mut j: usize = 0;
        let mut same = true;
        while j < needle.len()
            invariant
                i <= last,
                last == hay.len() - needle.len(),
                j <= needle.len(),
                same == (forall|m: int| 0 <= m < j ==> hay@[i + m] == needle@[m]),
            decreases needle.len() - j,
        {
            if hay[i + j] != needle[j] {
                same = false;
            }
            j += 1;
        }
        if same {
            assert(hay@.subrange(i as int, i + needle.len()) =~= needle@);
            return true;
        }
        proof {
            let k = choose|m: int| 0 <= m < needle.len() && hay@[i + m] != needle@[m];
            assert(hay@.subrange(i as int, i + needle.len())[k] != needle@[k]);
        }
        i += 1;
    }
    false
}

// ==================== decimal integers ====================

/// Whether `c` is an ASCII digit.
pub open spec fn is_digit(c: char) -> bool {
    '0' <= c <= '9'
}

/// Value of a digit sequence.
pub open spec fn decimal_value(d: Seq<char>) -> nat
    decreases d.len(),
{
    if d.len() == 0 {
        0
    } else {
        decimal_value(d.drop_last()) * 10 + ((d.last() as u32) - 48) as nat
    }
}

/// The text after an optional leading `+`.
pub open spec fn digits_part(s: Seq<char>) -> Seq<char> {
    if s.len() > 0 && s[0] == '+' { s.drop_first() } else { s }
}

/// Every character is an ASCII digit.
pub open spec fn all_digits(d: Seq<char>) -> bool {
    forall|i: int| 0 <= i < d.len() ==> is_digit(#[trigger] d[i])
}

/// std's `str::parse::<u64>`: an optional `+`, then one or more ASCII digits
/// whose value fits in a `u64`.
pub open spec fn parse_u64_spec(s: Seq<char>) -> Option<u64> {
    let d = digits_part(s);
    if d.len() == 0 || !all_digits(d) {
        None
    } else if decimal_value(d) > u64::MAX {
        None
    } else {
        Some(decimal_value(d) as u64)
    }
}

proof fn lemma_decimal_monotone(d: Seq<char>, i: int, j: int)
    requires
        0 <= i <= j <= d.len(),
        forall|k: int| 0 <= k < d.len() ==> is_digit(#[trigger] d[k]),
    ensures
        decimal_value(d.take(i)) <= decimal_value(d.take(j)),
    decreases j - i,
{
    if i < j {
        lemma_decimal_monotone(d, i, j - 1);
        assert(d.take(j).drop_last() =~= d.take(j - 1));
    }
}

/// Parses a decimal `u64` exactly as std's `str::parse::<u64>` does.
pub fn parse_u64(s: &[char]) -> (r: Option<u64>)
    ensures
        r == parse_u64_spec(s@),
{
    let start: usize = if s.len() > 0 && s[0] == '+' { 1 } else { 0 };
    let ghost d = digits_part(s@);
    assert(d =~= s@.skip(start as int));
    if start == s.len() {
        return None;
    }
    let mut k: usize = start;
    while k < s.len()
        invariant
            start <= k <= s.len(),
            d =~= s@.skip(start as int),
            d == digits_part(s@),
            forall|m: int| 0 <= m < k - start ==> is_digit(#[trigger] d[m]),
        decreases s.len() - k,
    {
        if !('0' <= s[k] && s[k] <= '9') {
            assert(d[k - start] == s@[k as int]);
            assert(!is_digit(d[k - start]));
            return None;
        }
        k += 1;
    }
    let mut v: u64 = 0;
    let mut i: usize = start;
    while i < s.len()
        invariant
            start <= i <= s.len(),
            d =~= s@.skip(start as int),
            d == digits_part(s@),
            forall|m: int| 0 <= m < d.len() ==> is_digit(#[trigger] d[m]),
            v == decimal_value(d.take(i - start)),
        decreases s.len() - i,
    {
        proof {
            assert(d.take(i - start + 1).drop_last() =~= d.take(i - start));
            assert(d[i - start] == s@[i as int]);
            assert(is_digit(d[i - start]));
            assert(d.take(i - start + 1).last() == s@[i as int]);
        }
        let dig = (s[i] as u32 - 48) as u64;
        match v.checked_mul(10) {
            Some(m) => match m.checked_add(dig) {
                Some(n) => {
                    v = n;
                },
                None => {
                    proof {
                        lemma_decimal_monotone(d, i - start + 1, d.len() as int);
                        assert(d.take(d.len() as int) =~= d);
                    }
                    return None;
                },
            },
            None => {
                proof {
                    lemma_decimal_monotone(d, i - start + 1, d.len() as int);
                    assert(d.take(d.len() as int) =~= d);
                }
                return None;
            },
        }
        i += 1;
    }
    assert(d.take(d.len() as int) =~= d);
    Some(v)
}

} // verus!

verus! {

// ==================== trimming ====================

/// `s` without its trailing `c` characters.
pub open spec fn trim_end_char(s: Seq<char>, c: char) -> Seq<char>
    decreases s.len(),
{
    if s.len() > 0 && s.last() == c { trim_end_char(s.drop_last(), c) } else { s }
}

/// `s` without its leading `c` characters.
pub open spec fn trim_start_char(s: Seq<char>, c: char) -> Seq<char>
    decreases s.len(),
{
    if s.len() > 0 && s[0] == c { trim_start_char(s.drop_first(), c) } else { s }
}

/// Removes trailing `c` characters.
pub fn trim_end_chars(cs: &[char], c: char) -> (v: Vec<char>)
    ensures
        v@ == trim_end_char(cs@, c),
{
    let mut n = cs.len();
    assert(cs@.take(n as int) =~= cs@);
    while n > 0 && cs[n - 1] == c
        invariant
            n <= cs.len(),
            trim_end_char(cs@, c) == trim_end_char(cs@.take(n as int), c),
        decreases n,
    {
        proof {
            assert(cs@.take(n as int).drop_last() =~= cs@.take(n - 1));
        }
        n -= 1;
    }
    chars_range(cs, 0, n)
}

/// Removes leading `c` characters.
pub fn trim_start_chars(cs: &[char], c: char) -> (v: Vec<char>)
    ensures
        v@ == trim_start_char(cs@, c),
{
    let mut n: usize = 0;
    assert(cs@.skip(0) =~= cs@);
    while n < cs.len() && cs[n] == c
        invariant
            n <= cs.len(),
            trim_start_char(cs@, c) == trim_start_char(cs@.skip(n as int), c),
        decreases cs.len() - n,
    {
        proof {
            assert(cs@.skip(n as int).drop_first() =~= cs@.skip(n + 1));
        }
        n += 1;
    }
    chars_range(cs, n, cs.len())
}

/// Unicode `White_Space` (std `char::is_whitespace`).
pub open spec fn is_ws(c: char) -> bool {
    ||| '\u{9}' <= c <= '\u{d}'
    ||| c == ' '
    ||| c == '\u{85}'
    ||| c == '\u{a0}'
    ||| c == '\u{1680}'
    ||| '\u{2000}' <= c <= '\u{200a}'
    ||| c == '\u{2028}'
    ||| c == '\u{2029}'
    ||| c == '\u{202f}'
    ||| c == '\u{205f}'
    ||| c == '\u{3000}'
}

/// Whether `c` is Unicode white space.
pub fn is_whitespace(c: char) -> (r: bool)
    ensures
        r == is_ws(c),
{
    ('\u{9}' <= c && c <= '\u{d}') || c == ' ' || c == '\u{85}' || c == '\u{a0}' || c == '\u{1680}'
        || ('\u{2000}' <= c && c <= '\u{200a}') || c == '\u{2028}' || c == '\u{2029}' || c
        == '\u{202f}' || c == '\u{205f}' || c == '\u{3000}'
}

/// `s` without leading white space (std `str::trim_start`).
pub open spec fn trim_ws_start(s: Seq<char>) -> Seq<char>
    decreases s.len(),
{
    if s.len() > 0 && is_ws(s[0]) { trim_ws_start(s.drop_first()) } else { s }
}

/// Removes leading white space.
pub fn trim_ws_start_chars(cs: &[char]) -> (v: Vec<char>)
    ensures
        v@ == trim_ws_start(cs@),
{
    let mut n: usize = 0;
    assert(cs@.skip(0) =~= cs@);
    while n < cs.len() && is_whitespace(cs[n])
        invariant
            n <= cs.len(),
            trim_ws_start(cs@) == trim_ws_start(cs@.skip(n as int)),
        decreases cs.len() - n,
    {
        proof {
            assert(cs@.skip(n as int).drop_first() =~= cs@.skip(n + 1));
        }
        n += 1;
    }
    chars_range(cs, n, cs.len())
}

/// `s` with every leading repetition of the non-empty `p` removed
/// (std `str::trim_start_matches` with a string pattern).
pub open spec fn strip_all_prefix(s: Seq<char>, p: Seq<char>) -> Seq<char>
    decreases s.len(),
{
    if p.len() > 0 && seq_starts_with(s, p) { strip_all_prefix(s.skip(p.len() as int), p) } else { s }
}

/// Removes every leading repetition of the non-empty `p`.
pub fn strip_all_prefix_chars(cs: &[char], p: &[char]) -> (v: Vec<char>)
    requires
        p.len() > 0,
    ensures
        v@ == strip_all_prefix(cs@, p@),
{
    let mut cur: Vec<char> = chars_range(cs, 0, cs.len());
    assert(cur@ =~= cs@);
    while chars_start_with(cur.as_slice(), p)
        invariant
            p.len() > 0,
            strip_all_prefix(cs@, p@) == strip_all_prefix(cur@, p@),
        decreases cur.len(),
    {
        cur = chars_range(cur.as_slice(), p.len(), cur.len());
    }
    cur
}

/// The longest prefix of `s` made of ASCII digits.
pub open spec fn digit_prefix(s: Seq<char>) -> Seq<char>
    decreases s.len(),
{
    if s.len() > 0 && is_digit(s[0]) { seq![s[0]] + digit_prefix(s.drop_first()) } else { Seq::empty() }
}

/// The longest prefix made of ASCII digits.
pub fn digit_prefix_chars(cs: &[char]) -> (v: Vec<char>)
    ensures
        v@ == digit_prefix(cs@),
{
    let mut n: usize = 0;
    assert(cs@.skip(0) =~= cs@);
    assert(cs@.take(0) + digit_prefix(cs@) =~= digit_prefix(cs@));
    while n < cs.len() && '0' <= cs[n] && cs[n] <= '9'
        invariant
            n <= cs.len(),
            forall|m: int| 0 <= m < n ==> is_digit(#[trigger] cs@[m]),
            digit_prefix(cs@) == cs@.take(n as int) + digit_prefix(cs@.skip(n as int)),
        decreases cs.len() - n,
    {
        proof {
            let t = cs@.skip(n as int);
            assert(t.drop_first() =~= cs@.skip(n + 1));
            assert(cs@.take(n + 1) =~= cs@.take(n as int) + seq![t[0]]);
        }
        n += 1;
    }
    proof {
        assert(cs@.take(n as int) + Seq::<char>::empty() =~= cs@.take(n as int));
    }
    chars_range(cs, 0, n)
}

} // verus!
