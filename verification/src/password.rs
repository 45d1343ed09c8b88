//! Passwords are stored as the lower-case hex of their SHA-256 digest.

use vstd::prelude::*;
use sha2::{Digest, Sha256};
use crate::text::{hex_digits, lemma_lower_hex_bytes, lower_hex, to_lower_hex};

verus! {

/// The SHA-256 digest of the UTF-8 bytes of a text.
pub uninterp spec fn sha256(data: Seq<char>) -> Seq<u8>;

/// Calls sha2's `Sha256::new`, `update` with the UTF-8 bytes of `data`, and
/// `finalize`. Trusted to give `sha256(data@)`, a function of the text alone,
/// 32 bytes long (the digest's type, `GenericArray<u8, U32>`, holds 32).
#[verifier::external_body]
fn sha256_digest(data: &str) -> (digest: Vec<u8>)
    ensures
        digest@ == sha256(data@),
        digest@.len() == 32,
{
    let mut hasher = Sha256::new();
    hasher.update(data);
    hasher.finalize().to_vec()
}

/// What is stored for a password: the lower-case hex of its digest.
pub open spec fn spec_password_hash(password: Seq<char>) -> Seq<char> {
    lower_hex(sha256(password))
}

proof fn lemma_lower_hex_len(bytes: Seq<u8>)
    ensures
        lower_hex(bytes).len() == 2 * bytes.len(),
    decreases bytes.len(),
{
    if bytes.len() > 0 {
        lemma_lower_hex_len(bytes.drop_last());
    }
}

/// The stored form of a password is the digest of the whole password, in
/// lower-case hex: two characters per digest byte, in order, the high four
/// bits first.
pub proof fn lemma_password_hash_is_hex_digest(password: Seq<char>)
    ensures
        spec_password_hash(password).len() == 2 * sha256(password).len(),
        forall|k: int|
            0 <= k < sha256(password).len() ==> spec_password_hash(password)[2 * k] == hex_digits()[(
            #[trigger] sha256(password)[k]) as int / 16] && spec_password_hash(password)[2 * k + 1]
                == hex_digits()[sha256(password)[k] as int % 16],
{
    lemma_lower_hex_bytes(sha256(password));
}

/// The stored form of a password, as `format!("{:x}", digest)` writes it.
pub fn password_hash(password: &str) -> (h: String)
    ensures
        h@ == spec_password_hash(password@),
        h@.len() == 64,
        forall|k: int|
            0 <= k < 32 ==> h@[2 * k] == hex_digits()[(#[trigger] sha256(password@)[k]) as int / 16]
                && h@[2 * k + 1] == hex_digits()[sha256(password@)[k] as int % 16],
{
    let digest = sha256_digest(password);
    proof {
        lemma_lower_hex_len(digest@);
    }
    to_lower_hex(&digest)
}

} // verus!
