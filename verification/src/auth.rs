//! Bearer-token guard of the mobile file service.
//!
//! The service accepts only the random bearer token registered by the host:
//! generated at start (32 OS-random bytes, base64url without padding), kept in
//! memory only, announced to the desktop over the authenticated WS channel and
//! revoked when the service stops. Verification compares in constant time; the
//! token never appears in a debug rendering.

use vstd::prelude::*;
use vstd::utf8::{encode_utf8_decode_utf8};
use vstd::string::StringSliceAdditionalSpecFns;
use rand::RngCore;
use crate::encoding::{b64, base64_url_no_pad, lemma_b64_nopad_len};
use crate::text::{chars_of, chars_range, chars_start_with, seq_starts_with, string_of};

verus! {

/// Message of the 401 answer to an unauthorized request.
pub const UNAUTHORIZED_MESSAGE: &'static str = "unauthorized: valid Bearer token required";

/// Random bytes per token.
pub const TOKEN_RANDOM_BYTES: usize = 32;

/// `rand::rngs::OsRng::fill_bytes` on a 32-byte buffer: fills it from the OS
/// random source. Nothing is claimed of the bytes (they are random); the call
/// panics only when the OS random source itself fails.
#[verifier::external_body]
fn os_random_bytes() -> (b: [u8; 32]) {
    let mut bytes = [0u8; 32];
    rand::rngs::OsRng.fill_bytes(&mut bytes);
    bytes
}

/// Constant-time byte comparison: unequal lengths differ at once (length is not
/// secret); equal lengths are compared over every byte without early exit.
pub fn constant_time_eq(a: &[u8], b: &[u8]) -> (r: bool)
    ensures
        r == (a@ == b@),
{
    if a.len() != b.len() {
        return false;
    }
    let mut diff: u8 = 0;
    let mut i: usize = 0;
    while i < a.len()
        invariant
            a.len() == b.len(),
            i <= a.len(),
            (diff == 0) == (forall|j: int| 0 <= j < i ==> a@[j] == b@[j]),
        decreases a.len() - i,
    {
        let x = a[i];
        let y = b[i];
        let nd = diff | (x ^ y);
        assert((nd == 0) == (diff == 0 && x == y)) by (bit_vector)
            requires nd == diff | (x ^ y);
        diff = nd;
        i += 1;
    }
    if diff == 0 {
        assert(a@ =~= b@);
    }
    diff == 0
}

/// Whether a request whose `Authorization` header is `authorization` passes
/// a guard holding `token`: the header reads `Bearer ` followed by exactly the
/// token.
pub open spec fn bearer_accepts(token: Option<Seq<char>>, authorization: Option<Seq<char>>) -> bool {
    authorization matches Some(h) && seq_starts_with(h, "Bearer "@) && token == Some(h.skip(7))
}

/// Bearer-token guard (single token; memory only).
pub struct BearerTokenGuard {
    token: Option<String>,
}

impl BearerTokenGuard {
    /// The current token (`None`: service not running / revoked).
    pub closed spec fn current(&self) -> Option<Seq<char>> {
        match self.token {
            Some(t) => Some(t@),
            None => None,
        }
    }

    /// Empty guard.
    pub fn new() -> (g: Self)
        ensures
            g.current() is None,
    {
        BearerTokenGuard { token: None }
    }

    /// Generates a fresh token (32 OS-random bytes, base64url without padding,
    /// 43 characters), registers it in place of any previous one and returns it.
    pub fn generate(&mut self) -> (t: String)
        ensures
            final(self).current() == Some(t@),
            t@.len() == 43,
            exists|b: Seq<u8>| b.len() == 32 && t@ == #[trigger] b64(b, true, false),
    {
        let bytes = os_random_bytes();
        let token = base64_url_no_pad(&bytes);
        proof {
            lemma_b64_nopad_len(bytes@, true);
        }
        self.token = Some(token.clone());
        token
    }

    /// Whether `presented` equals the registered token (constant-time); always
    /// false without a token.
    pub fn verify(&self, presented: &str) -> (r: bool)
        ensures
            r == (self.current() == Some(presented@)),
    {
        match &self.token {
            Some(expected) => {
                let e = expected.as_str();
                let r = constant_time_eq(e.as_bytes(), presented.as_bytes());
                proof {
                    encode_utf8_decode_utf8(e@);
                    encode_utf8_decode_utf8(presented@);
                }
                r
            },
            None => false,
        }
    }

    /// Whether a request may proceed: its `Authorization` header reads
    /// `Bearer ` followed by exactly the registered token. A request without
    /// the header, with another scheme, or with another token is refused.
    pub fn authorize(&self, authorization: Option<&str>) -> (ok: bool)
        ensures
            ok == bearer_accepts(
                self.current(),
                match authorization {
                    Some(h) => Some(h@),
                    None => None,
                },
            ),
    {
        proof {
            reveal_strlit("Bearer ");
        }
        let h = match authorization {
            Some(h) => h,
            None => return false,
        };
        let hc = chars_of(h);
        let prefix = chars_of("Bearer ");
        if !chars_start_with(hc.as_slice(), prefix.as_slice()) {
            return false;
        }
        let rest = string_of(chars_range(hc.as_slice(), 7, hc.len()).as_slice());
        proof {
            assert(hc@.subrange(7, hc@.len() as int) =~= h@.skip(7));
        }
        self.verify(rest.as_str())
    }

    /// Revokes the token; every later verification fails.
    pub fn revoke(&mut self)
        ensures
            final(self).current() is None,
    {
        self.token = None;
    }

    /// Whether a token is registered (service running).
    pub fn is_active(&self) -> (r: bool)
        ensures
            r == (self.current() is Some),
    {
        self.token.is_some()
    }

    /// A copy of the current token, for the authenticated announce only.
    pub fn current_for_announce(&self) -> (r: Option<String>)
        ensures
            match r { Some(t) => self.current() == Some(t@), None => self.current() is None },
    {
        match &self.token {
            Some(t) => Some(t.clone()),
            None => None,
        }
    }

    /// Redacted debug rendering: only whether a token is active, never the token.
    pub fn debug_repr(&self) -> (s: String)
        ensures
            s@ == (if self.current() is Some {
                "BearerTokenGuard { active: true }"@
            } else {
                "BearerTokenGuard { active: false }"@
            }),
    {
        if self.token.is_some() {
            "BearerTokenGuard { active: true }".to_owned()
        } else {
            "BearerTokenGuard { active: false }".to_owned()
        }
    }
}

impl Default for BearerTokenGuard {
    fn default() -> (g: Self)
        ensures
            g.current() is None,
    {
        BearerTokenGuard::new()
    }
}

/// Law: after a revocation no presented token verifies and no request is
/// authorized, whatever header it carries.
pub proof fn lemma_revoked_rejects_all(g: BearerTokenGuard, presented: Seq<char>, authorization: Option<Seq<char>>)
    requires
        g.current() is None,
    ensures
        g.current() != Some(presented),
        !bearer_accepts(g.current(), authorization),
{
}

} // verus!
