//! Password hashing: PBKDF2-HMAC-SHA256 over a random 16-byte salt, stored
//! as the base64 text of `salt ++ derived key`.

use base64::Engine;
use subtle::ConstantTimeEq;
use vstd::prelude::*;
use vstd::slice::slice_subrange;
use vstd::string::StringSliceAdditionalSpecFns;

use crate::random::{new_rng, rng_fill};

verus! {

/// PBKDF2 rounds used for every stored password.
pub const ITERATIONS: u32 = 100000;

/// Length in bytes of the random salt.
pub const SALT_LEN: usize = 16;

/// Length in bytes of the derived key.
pub const HASH_LEN: usize = 32;

/// What `pbkdf2::pbkdf2::<Hmac<Sha256>>` writes into an `len`-byte buffer
/// for the given password, salt and round count.
pub uninterp spec fn pbkdf2_hmac_sha256_output(password: Seq<u8>, salt: Seq<u8>, rounds: u32, len: usize) -> Seq<u8>;

/// The 64 digits of the standard base64 alphabet, by value.
pub const BASE64_ALPHABET: [char; 64] = [
    'A', 'B', 'C', 'D', 'E', 'F', 'G', 'H', 'I', 'J', 'K', 'L', 'M', 'N', 'O', 'P', 'Q', 'R',
    'S', 'T', 'U', 'V', 'W', 'X', 'Y', 'Z', 'a', 'b', 'c', 'd', 'e', 'f', 'g', 'h', 'i', 'j',
    'k', 'l', 'm', 'n', 'o', 'p', 'q', 'r', 's', 't', 'u', 'v', 'w', 'x', 'y', 'z', '0', '1',
    '2', '3', '4', '5', '6', '7', '8', '9', '+', '/',
];

/// The base64 digit of a 6-bit value.
pub open spec fn base64_digit(v: int) -> char {
    BASE64_ALPHABET@[v]
}

/// Standard padded base64 (RFC 4648): each group of three bytes becomes
/// four digits of six bits each; a final group of one or two bytes becomes
/// two or three digits followed by `=` padding up to four characters.
pub open spec fn base64_standard_encoding(bytes: Seq<u8>) -> Seq<char>
    decreases bytes.len(),
{
    if bytes.len() == 0 {
        Seq::empty()
    } else if bytes.len() == 1 {
        let b0 = bytes[0] as int;
        seq![base64_digit(b0 / 4), base64_digit((b0 % 4) * 16), '=', '=']
    } else if bytes.len() == 2 {
        let b0 = bytes[0] as int;
        let b1 = bytes[1] as int;
        seq![base64_digit(b0 / 4), base64_digit((b0 % 4) * 16 + b1 / 16), base64_digit((b1 % 16) * 4), '=']
    } else {
        let b0 = bytes[0] as int;
        let b1 = bytes[1] as int;
        let b2 = bytes[2] as int;
        seq![
            base64_digit(b0 / 4),
            base64_digit((b0 % 4) * 16 + b1 / 16),
            base64_digit((b1 % 16) * 4 + b2 / 64),
            base64_digit(b2 % 64),
        ] + base64_standard_encoding(bytes.skip(3))
    }
}

/// A whole number of byte triples encodes to four digits per triple, all
/// from the base64 alphabet (no padding).
pub proof fn lemma_base64_unpadded(bytes: Seq<u8>)
    requires
        bytes.len() % 3 == 0,
    ensures
        base64_standard_encoding(bytes).len() == bytes.len() / 3 * 4,
        forall|i: int|
            0 <= i < base64_standard_encoding(bytes).len() ==> BASE64_ALPHABET@.contains(
                #[trigger] base64_standard_encoding(bytes)[i],
            ),
    decreases bytes.len(),
{
    if bytes.len() > 0 {
        let rest = bytes.skip(3);
        lemma_base64_unpadded(rest);
        let b0 = bytes[0] as int;
        let b1 = bytes[1] as int;
        let b2 = bytes[2] as int;
        let head = seq![
            base64_digit(b0 / 4),
            base64_digit((b0 % 4) * 16 + b1 / 16),
            base64_digit((b1 % 16) * 4 + b2 / 64),
            base64_digit(b2 % 64),
        ];
        let whole = base64_standard_encoding(bytes);
        assert(whole == head + base64_standard_encoding(rest));
        assert forall|i: int| 0 <= i < whole.len() implies BASE64_ALPHABET@.contains(#[trigger] whole[i]) by {
            if i < 4 {
                let v = if i == 0 {
                    b0 / 4
                } else if i == 1 {
                    (b0 % 4) * 16 + b1 / 16
                } else if i == 2 {
                    (b1 % 16) * 4 + b2 / 64
                } else {
                    b2 % 64
                };
                assert(0 <= v < 64);
                assert(whole[i] == BASE64_ALPHABET@[v]);
            } else {
                assert(whole[i] == base64_standard_encoding(rest)[i - 4]);
            }
        }
    }
}

/// What base64's `STANDARD` engine decodes the text to, or `None` where it
/// reports an error.
pub uninterp spec fn base64_standard_decoding(text: Seq<char>) -> Option<Seq<u8>>;

/// `base64::DecodeError`, carried through opaquely.
#[verifier::external_type_specification]
#[verifier::external_body]
pub struct ExDecodeError(base64::DecodeError);

/// `pbkdf2::pbkdf2::<Hmac<Sha256>>` into a fresh zeroed buffer of `len`
/// bytes. The call only fails when the key cannot initialise the PRF, which
/// HMAC never refuses. Claimed: the result is the named output, and it has
/// `len` bytes (the buffer is filled in place).
#[verifier::external_body]
fn pbkdf2_hmac_sha256(password: &[u8], salt: &[u8], rounds: u32, len: usize) -> (key: Vec<u8>)
    ensures
        key@ == pbkdf2_hmac_sha256_output(password@, salt@, rounds, len),
        key@.len() == len,
{
    let mut key = vec![0u8; len];
    let _ = pbkdf2::pbkdf2::<hmac::Hmac<sha2::Sha256>>(password, salt, rounds, &mut key);
    key
}

/// `Engine::encode` of `base64::engine::general_purpose::STANDARD`.
/// Claimed: the result is the standard padded base64 encoding of the bytes,
/// and that canonical encoding decodes back to the same bytes with the
/// same engine.
#[verifier::external_body]
fn base64_encode(bytes: &[u8]) -> (text: String)
    ensures
        text@ == base64_standard_encoding(bytes@),
        base64_standard_decoding(text@) == Some(bytes@),
{
    base64::engine::general_purpose::STANDARD.encode(bytes)
}

/// `Engine::decode` of `base64::engine::general_purpose::STANDARD` on the
/// UTF-8 bytes of the text. Claimed: it succeeds exactly where the named
/// decoding is defined, and then returns it.
#[verifier::external_body]
fn base64_decode(text: &str) -> (bytes: Result<Vec<u8>, base64::DecodeError>)
    ensures
        bytes is Ok <==> base64_standard_decoding(text@) is Some,
        bytes matches Ok(b) ==> base64_standard_decoding(text@) == Some(b@),
{
    base64::engine::general_purpose::STANDARD.decode(text)
}

/// `subtle::ConstantTimeEq::ct_eq` on two byte slices, turned into a
/// `bool`. Claimed: true exactly when the slices have equal length and
/// equal bytes.
#[verifier::external_body]
fn constant_time_eq(a: &[u8], b: &[u8]) -> (same: bool)
    ensures
        same == (a@ == b@),
{
    a.ct_eq(b).into()
}

/// The derived key stored for a password under a salt.
pub open spec fn derived_key(password: Seq<u8>, salt: Seq<u8>) -> Seq<u8> {
    pbkdf2_hmac_sha256_output(password, salt, ITERATIONS, HASH_LEN)
}

/// The stored text for a password hashed under a given salt.
pub open spec fn stored_hash(password: Seq<u8>, salt: Seq<u8>) -> Seq<char> {
    base64_standard_encoding(salt + derived_key(password, salt))
}

/// Whether decoded bytes accept a password: exactly `SALT_LEN + HASH_LEN`
/// bytes whose tail is the key derived from the password under the head
/// as salt.
pub open spec fn decoded_matches(password: Seq<u8>, decoded: Seq<u8>) -> bool {
    &&& decoded.len() == SALT_LEN + HASH_LEN
    &&& decoded.subrange(SALT_LEN as int, decoded.len() as int) == derived_key(
        password,
        decoded.subrange(0, SALT_LEN as int),
    )
}

/// Whether a stored text accepts a password: it decodes, and the decoded
/// bytes accept it.
pub open spec fn password_matches(password: Seq<u8>, stored: Seq<char>) -> bool {
    match base64_standard_decoding(stored) {
        Some(decoded) => decoded_matches(password, decoded),
        None => false,
    }
}

/// Whether a text has the shape of a stored hash: 64 digits of the base64
/// alphabet, with no padding.
pub open spec fn is_stored_hash_text(stored: Seq<char>) -> bool {
    &&& stored.len() == 64
    &&& forall|i: int| 0 <= i < stored.len() ==> BASE64_ALPHABET@.contains(#[trigger] stored[i])
}

/// Hashes a password under the given salt. The result is the base64 text
/// of the salt followed by the derived key, decodes back to exactly those
/// bytes, and accepts the same password under `verify_password`.
pub fn hash_password_with_salt(password: &str, salt: &[u8]) -> (stored: String)
    requires
        salt@.len() == SALT_LEN,
    ensures
        stored@ == stored_hash(password.spec_bytes(), salt@),
        base64_standard_decoding(stored@) == Some(salt@ + derived_key(password.spec_bytes(), salt@)),
        derived_key(password.spec_bytes(), salt@).len() == HASH_LEN,
        is_stored_hash_text(stored@),
        password_matches(password.spec_bytes(), stored@),
{
    let key = pbkdf2_hmac_sha256(password.as_bytes(), salt, ITERATIONS, HASH_LEN);
    let mut combined: Vec<u8> = Vec::with_capacity(SALT_LEN + HASH_LEN);
    let mut i: usize = 0;
    while i < salt.len()
        invariant
            i <= salt@.len(),
            combined@ == salt@.subrange(0, i as int),
        decreases salt@.len() - i,
    {
        combined.push(salt[i]);
        i = i + 1;
    }
    let mut j: usize = 0;
    while j < key.len()
        invariant
            j <= key@.len(),
            combined@ == salt@ + key@.subrange(0, j as int),
        decreases key@.len() - j,
    {
        combined.push(key[j]);
        j = j + 1;
    }
    assert(combined@ == salt@ + key@);
    let stored = base64_encode(combined.as_slice());
    assert(combined@.subrange(0, SALT_LEN as int) == salt@);
    assert(combined@.subrange(SALT_LEN as int, combined@.len() as int) == key@);
    proof {
        lemma_base64_unpadded(combined@);
    }
    stored
}

/// Hashes a password under a fresh random salt.
pub fn hash_password(password: &str) -> (stored: String)
    ensures
        exists|salt: Seq<u8>|
            {
                &&& salt.len() == SALT_LEN
                &&& stored@ == #[trigger] stored_hash(password.spec_bytes(), salt)
                &&& base64_standard_decoding(stored@) == Some(salt + derived_key(password.spec_bytes(), salt))
                &&& derived_key(password.spec_bytes(), salt).len() == HASH_LEN
            },
        is_stored_hash_text(stored@),
        password_matches(password.spec_bytes(), stored@),
{
    let mut salt: Vec<u8> = vec![0u8; SALT_LEN];
    let mut rng = new_rng();
    rng_fill(&mut rng, &mut salt);
    hash_password_with_salt(password, salt.as_slice())
}

/// Checks a password against the bytes a stored hash decoded to (`None`
/// where it did not decode): only `SALT_LEN + HASH_LEN` bytes whose tail is
/// the key derived from the password under the head as salt accept it.
pub fn check_decoded(password: &str, decoded: Option<Vec<u8>>) -> (accepted: bool)
    ensures
        accepted == match decoded {
            Some(d) => decoded_matches(password.spec_bytes(), d@),
            None => false,
        },
        accepted <==> (decoded matches Some(d) && d@.len() == SALT_LEN + HASH_LEN && d@.subrange(
            SALT_LEN as int,
            d@.len() as int,
        ) == derived_key(password.spec_bytes(), d@.subrange(0, SALT_LEN as int))),
{
    let decoded = match decoded {
        Some(d) => d,
        None => return false,
    };
    if decoded.len() != SALT_LEN + HASH_LEN {
        return false;
    }
    let salt = slice_subrange(decoded.as_slice(), 0, SALT_LEN);
    let hash = slice_subrange(decoded.as_slice(), SALT_LEN, decoded.len());
    let computed = pbkdf2_hmac_sha256(password.as_bytes(), salt, ITERATIONS, HASH_LEN);
    constant_time_eq(hash, computed.as_slice())
}

/// Checks a password against a stored hash. Any stored text that is not
/// base64 of exactly `SALT_LEN + HASH_LEN` bytes rejects every password.
pub fn verify_password(password: &str, stored: &str) -> (accepted: bool)
    ensures
        accepted == password_matches(password.spec_bytes(), stored@),
{
    let decoded = match base64_decode(stored) {
        Ok(d) => Some(d),
        Err(_) => None,
    };
    check_decoded(password, decoded)
}

} // verus!
