//! The authentication token and its on-disk cache format.
//!
//! The cache holds one token as the decimal Unix expiry, a newline, and the
//! token id (which may itself contain any characters, newlines included,
//! since the expiry never does). Parsing accepts exactly the encodings.

use vstd::prelude::*;
use crate::digits::{
    dec_digits, dec_to_u64, digits_value, is_digit_char, lemma_dec_digits_props, u64_to_dec,
};
use vstd::utf8::char_u32_cast;

verus! {

/// A bearer token: an opaque id and its absolute expiry as a Unix timestamp
/// in seconds. Usable only while the expiry is strictly in the future.
pub struct ConohaToken {
    pub token_id: String,
    pub expires: u64,
}

/// The cache file contents for a token with the given fields.
pub open spec fn token_cache_encoding(expires: u64, token_id: Seq<char>) -> Seq<char> {
    dec_digits(expires as nat) + seq!['\n'] + token_id
}

/// In every encoding, the first newline stands right after the expiry digits.
proof fn lemma_encoding_shape(expires: u64, token_id: Seq<char>)
    ensures
        ({
            let d = dec_digits(expires as nat);
            let enc = token_cache_encoding(expires, token_id);
            &&& enc.len() == d.len() + 1 + token_id.len()
            &&& d.len() >= 1
            &&& forall|j: int| 0 <= j < d.len() ==> enc[j] == d[j] && enc[j] != '\n'
            &&& enc[d.len() as int] == '\n'
            &&& forall|j: int|
                d.len() + 1 <= j < enc.len() ==> enc[j] == token_id[j - d.len() - 1]
        }),
{
    lemma_dec_digits_props(expires as nat);
    let d = dec_digits(expires as nat);
    let enc = token_cache_encoding(expires, token_id);
    assert forall|j: int| 0 <= j < d.len() implies enc[j] == d[j] && enc[j] != '\n' by {
        assert(is_digit_char(d[j]));
        if d[j] == '\n' {
            char_u32_cast('\n', '\n' as u32);
        }
    }
}

/// The cache encoding is injective: equal cache contents carry equal
/// expiries and equal token ids. Together with the exact contract of
/// `parse_token_cache`, this is the cache round trip: a token written by
/// `encode_token_cache` reads back as exactly that token.
pub proof fn lemma_token_cache_encoding_injective(
    e1: u64,
    id1: Seq<char>,
    e2: u64,
    id2: Seq<char>,
)
    requires
        token_cache_encoding(e1, id1) == token_cache_encoding(e2, id2),
    ensures
        e1 == e2,
        id1 == id2,
{
    lemma_encoding_shape(e1, id1);
    lemma_encoding_shape(e2, id2);
    lemma_dec_digits_props(e1 as nat);
    lemma_dec_digits_props(e2 as nat);
    let d1 = dec_digits(e1 as nat);
    let d2 = dec_digits(e2 as nat);
    let enc = token_cache_encoding(e1, id1);
    if d1.len() < d2.len() {
        assert(enc[d1.len() as int] == '\n');
        assert(enc[d1.len() as int] != '\n');
    }
    if d2.len() < d1.len() {
        assert(enc[d2.len() as int] == '\n');
        assert(enc[d2.len() as int] != '\n');
    }
    assert(d1.len() == d2.len());
    assert(d1 =~= d2);
    assert(digits_value(d1) == digits_value(d2));
    assert(id1.len() == id2.len());
    assert forall|i: int| 0 <= i < id1.len() implies id1[i] == id2[i] by {
        assert(enc[d1.len() + 1 + i] == id1[i]);
        assert(token_cache_encoding(e2, id2)[d2.len() + 1 + i] == id2[i]);
    }
    assert(id1 =~= id2);
}

/// Encode a token for the cache file.
pub fn encode_token_cache(token: &ConohaToken) -> (r: String)
    ensures
        r@ == token_cache_encoding(token.expires, token.token_id@),
{
    let mut s = u64_to_dec(token.expires);
    s.append("\n");
    proof {
        reveal_strlit("\n");
    }
    s.append(token.token_id.as_str());
    assert(s@ =~= token_cache_encoding(token.expires, token.token_id@));
    s
}

/// Parse cache file contents. Succeeds on exactly the strings that
/// `encode_token_cache` produces, and returns the encoded token.
pub fn parse_token_cache(s: &str) -> (r: Option<ConohaToken>)
    ensures
        match r {
            Some(t) => s@ == token_cache_encoding(t.expires, t.token_id@),
            None => forall|e: u64, id: Seq<char>| s@ != token_cache_encoding(e, id),
        },
{
    let n = s.unicode_len();
    let mut k: usize = 0;
    while k < n && s.get_char(k) != '\n'
        invariant
            k <= n,
            n == s@.len(),
            forall|j: int| 0 <= j < k ==> s@[j] != '\n',
        decreases n - k,
    {
        k += 1;
    }
    if k == n {
        proof {
            assert forall|e: u64, id: Seq<char>| s@ != token_cache_encoding(e, id) by {
                lemma_encoding_shape(e, id);
                if s@ == token_cache_encoding(e, id) {
                    let dl = dec_digits(e as nat).len() as int;
                    assert(s@[dl] == '\n');
                }
            }
        }
        return None;
    }
    assert(s@[k as int] == '\n');
    let prefix = s.substring_char(0, k);
    assert(prefix@ == s@.subrange(0, k as int));
    match dec_to_u64(prefix) {
        None => {
            proof {
                assert forall|e: u64, id: Seq<char>| s@ != token_cache_encoding(e, id) by {
                    lemma_encoding_shape(e, id);
                    if s@ == token_cache_encoding(e, id) {
                        let d = dec_digits(e as nat);
                        let dl = d.len() as int;
                        if (k as int) < dl {
                            assert(s@[k as int] != '\n');
                        }
                        if dl < k as int {
                            assert(s@[dl] == '\n');
                        }
                        assert(k as int == dl);
                        assert(prefix@ =~= d);
                    }
                }
            }
            None
        },
        Some(expires) => {
            let token_id = String::from_str(s.substring_char(k + 1, n));
            proof {
                assert(s@ =~= s@.subrange(0, k as int) + seq![s@[k as int]] + s@.subrange(
                    k as int + 1,
                    n as int,
                ));
            }
            Some(ConohaToken { token_id, expires })
        },
    }
}

/// The cache load decision: a token is returned exactly when the cache
/// contents are a valid encoding and the encoded expiry is strictly in the
/// future. Stale or unparsable contents are a cache miss, never a token.
pub fn load_cached_token(contents: &str, now: u64) -> (r: Option<ConohaToken>)
    ensures
        match r {
            Some(t) => contents@ == token_cache_encoding(t.expires, t.token_id@) && t.expires
                > now,
            None => forall|e: u64, id: Seq<char>|
                contents@ == token_cache_encoding(e, id) ==> e <= now,
        },
{
    match parse_token_cache(contents) {
        Some(t) => {
            if t.expires > now {
                Some(t)
            } else {
                proof {
                    assert forall|e: u64, id: Seq<char>|
                        contents@ == token_cache_encoding(e, id) implies e <= now by {
                        lemma_token_cache_encoding_injective(e, id, t.expires, t.token_id@);
                    }
                }
                None
            }
        },
        None => None,
    }
}

} // verus!
