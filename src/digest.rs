use vstd::prelude::*;
use crypto::digest::Digest;
use crypto::mac::Mac;

verus! {

/// Lowercase hexadecimal SHA-256 digest of the UTF-8 bytes of a string.
pub uninterp spec fn sha256_hex_of(s: Seq<char>) -> Seq<char>;

/// HMAC-SHA256 code of a message under a key.
pub uninterp spec fn hmac_sha256_of(key: Seq<u8>, msg: Seq<u8>) -> Seq<u8>;

pub open spec fn is_lower_hex(s: Seq<char>) -> bool {
    forall|i: int| 0 <= i < s.len() ==> ('0' <= #[trigger] s[i] <= '9' || 'a' <= s[i] <= 'f')
}

/// Relies on rust-crypto's `Sha256` through `Digest::input_str` and
/// `Digest::result_str`: the 32-byte digest written as 64 lowercase hex digits.
#[verifier::external_body]
pub(crate) fn get_query_string_hash(canonical_url: &str) -> (r: String)
    ensures
        r@ == sha256_hex_of(canonical_url@),
        r@.len() == 64,
        is_lower_hex(r@),
{
    let mut sh = crypto::sha2::Sha256::new();
    sh.input_str(canonical_url);
    sh.result_str()
}

/// Relies on rust-crypto's `Hmac<Sha256>` through `Mac::input` and
/// `Mac::result`: the 32-byte code of `msg` under `key`.
#[verifier::external_body]
pub(crate) fn hmac_sha256(key: &[u8], msg: &[u8]) -> (r: Vec<u8>)
    ensures
        r@ == hmac_sha256_of(key@, msg@),
        r@.len() == 32,
{
    let mut hmac = crypto::hmac::Hmac::new(crypto::sha2::Sha256::new(), key);
    hmac.input(msg);
    hmac.result().code().to_vec()
}

} // verus!
