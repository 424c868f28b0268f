//! Base64 encoding (RFC 4648), as produced by the `base64` crate engines the
//! host uses: `STANDARD` (`+` `/`, `=` padding) for terminal output and
//! `URL_SAFE_NO_PAD` (`-` `_`, no padding) for bearer tokens.

use vstd::prelude::*;
use base64::Engine;

verus! {

/// Base64 symbol of a 6-bit value (`url`: URL-safe alphabet).
pub open spec fn b64_symbol(v: int, url: bool) -> char {
    if v < 26 {
        ((v + 65) as u8) as char
    } else if v < 52 {
        ((v - 26 + 97) as u8) as char
    } else if v < 62 {
        ((v - 52 + 48) as u8) as char
    } else if v == 62 {
        if url { '-' } else { '+' }
    } else {
        if url { '_' } else { '/' }
    }
}

/// Base64 encoding of `b`: each 3-byte group becomes 4 symbols; a final group of
/// 1 or 2 bytes becomes 2 or 3 symbols, followed by `=` up to 4 when `pad`.
pub open spec fn b64(b: Seq<u8>, url: bool, pad: bool) -> Seq<char>
    decreases b.len(),
{
    if b.len() == 0 {
        Seq::empty()
    } else if b.len() == 1 {
        seq![b64_symbol(b[0] as int / 4, url), b64_symbol((b[0] % 4) * 16, url)] + (if pad { seq!['=', '='] } else { Seq::empty() })
    } else if b.len() == 2 {
        seq![
            b64_symbol(b[0] as int / 4, url),
            b64_symbol((b[0] % 4) * 16 + b[1] / 16, url),
            b64_symbol((b[1] % 16) * 4, url),
        ] + (if pad { seq!['='] } else { Seq::empty() })
    } else {
        seq![
            b64_symbol(b[0] as int / 4, url),
            b64_symbol((b[0] % 4) * 16 + b[1] / 16, url),
            b64_symbol((b[1] % 16) * 4 + b[2] / 64, url),
            b64_symbol(b[2] as int % 64, url),
        ] + b64(b.skip(3), url, pad)
    }
}

/// Length of the unpadded encoding: 4 symbols per full group, plus 2 or 3.
pub proof fn lemma_b64_nopad_len(b: Seq<u8>, url: bool)
    ensures
        b64(b, url, false).len() == 4 * (b.len() / 3) + (if b.len() % 3 == 0 { 0 } else { b.len() % 3 + 1 }),
    decreases b.len(),
{
    if b.len() >= 3 {
        lemma_b64_nopad_len(b.skip(3), url);
    }
}

/// `base64::engine::general_purpose::STANDARD.encode`: standard alphabet with
/// `=` padding, as stated by [`b64`].
#[verifier::external_body]
pub(crate) fn base64_standard(bytes: &[u8]) -> (s: String)
    requires
        4 * (bytes.len() / 3) + 4 <= usize::MAX,
    ensures
        s@ == b64(bytes@, false, true),
{
    base64::engine::general_purpose::STANDARD.encode(bytes)
}

/// `base64::engine::general_purpose::URL_SAFE_NO_PAD.encode`: URL-safe alphabet
/// without padding, as stated by [`b64`].
#[verifier::external_body]
pub(crate) fn base64_url_no_pad(bytes: &[u8]) -> (s: String)
    requires
        4 * (bytes.len() / 3) + 4 <= usize::MAX,
    ensures
        s@ == b64(bytes@, true, false),
{
    base64::engine::general_purpose::URL_SAFE_NO_PAD.encode(bytes)
}

} // verus!
