//! Hashing, encoding and identifiers from outside crates: SHA-256 (`sha2`),
//! standard base64 (`base64`) and random UUIDs (`uuid`), plus hex rendering.

use vstd::prelude::*;
use crate::text::string_push;
use vstd::string::StringSliceAdditionalSpecFns;
use base64::Engine;
use sha2::{Digest, Sha256};

verus! {

/// The SHA-256 digest of a byte sequence.
pub uninterp spec fn sha256_of(data: Seq<u8>) -> Seq<u8>;

/// The standard-alphabet, padded base64 text of a byte sequence, as ASCII bytes.
pub uninterp spec fn base64_text_of(data: Seq<u8>) -> Seq<u8>;

/// What standard, padded base64 decoding yields for some input bytes
/// (`None` when they are not valid base64).
pub uninterp spec fn base64_decoding_of(text: Seq<u8>) -> Option<Seq<u8>>;

/// A byte of the standard base64 alphabet or the padding byte.
pub open spec fn is_base64_byte(b: u8) -> bool {
    (65 <= b <= 90) || (97 <= b <= 122) || (48 <= b <= 57) || b == 43 || b == 47 || b == 61
}

/// `Sha256::digest`: the 32-byte digest of `data`.
#[verifier::external_body]
pub(crate) fn sha256_digest(data: &[u8]) -> (d: Vec<u8>)
    ensures
        d@ == sha256_of(data@),
        d@.len() == 32,
{
    Sha256::digest(data).to_vec()
}

/// `base64::engine::general_purpose::STANDARD.encode`: the padded base64
/// text of `data`. Its bytes come from the standard alphabet and `=`, and
/// decoding them gives `data` back.
#[verifier::external_body]
pub(crate) fn base64_encode(data: &[u8]) -> (t: Vec<u8>)
    ensures
        t@ == base64_text_of(data@),
        forall|i: int| 0 <= i < t@.len() ==> is_base64_byte(#[trigger] t@[i]),
        base64_decoding_of(t@) == Some(data@),
{
    base64::engine::general_purpose::STANDARD.encode(data).into_bytes()
}

/// `base64::engine::general_purpose::STANDARD.decode`, with the error
/// dropped: the decoded bytes, or `None` when `text` is not valid base64.
#[verifier::external_body]
pub(crate) fn base64_decode(text: &[u8]) -> (r: Option<Vec<u8>>)
    ensures
        r is Some <==> base64_decoding_of(text@) is Some,
        r matches Some(v) ==> Some(v@) == base64_decoding_of(text@),
{
    base64::engine::general_purpose::STANDARD.decode(text).ok()
}

/// `Uuid::new_v4().to_string()`: a fresh random identifier (any value).
#[verifier::external_body]
pub(crate) fn new_uuid_string() -> String {
    uuid::Uuid::new_v4().to_string()
}

/// The lowercase hex digit for a value below 16.
pub open spec fn hex_digit(d: nat) -> char {
    if d < 10 {
        ((48 + d) as u8) as char
    } else {
        ((87 + d) as u8) as char
    }
}

/// Two lowercase hex digits per byte, in order.
pub open spec fn hex_lower(data: Seq<u8>) -> Seq<char>
    decreases data.len(),
{
    if data.len() == 0 {
        Seq::<char>::empty()
    } else {
        hex_lower(data.drop_last()) + seq![
            hex_digit((data.last() / 16) as nat),
            hex_digit((data.last() % 16) as nat),
        ]
    }
}

fn hex_digit_exec(d: u8) -> (c: char)
    requires
        d < 16,
    ensures
        c == hex_digit(d as nat),
{
    if d < 10 {
        ((48 + d) as u8) as char
    } else {
        ((87 + d) as u8) as char
    }
}

/// The lowercase hex rendering of `data`.
pub fn to_hex_lower(data: &[u8]) -> (s: String)
    ensures
        s@ == hex_lower(data@),
{
    let mut s = String::new();
    let mut i: usize = 0;
    while i < data.len()
        invariant
            i <= data@.len(),
            s@ == hex_lower(data@.subrange(0, i as int)),
        decreases data@.len() - i,
    {
        let b = data[i];
        string_push(&mut s, hex_digit_exec(b / 16));
        string_push(&mut s, hex_digit_exec(b % 16));
        proof {
            let pre = data@.subrange(0, i as int);
            let next = data@.subrange(0, i + 1);
            assert(next.drop_last() =~= pre);
            assert(s@ =~= hex_lower(next));
        }
        i = i + 1;
    }
    proof {
        assert(data@.subrange(0, data@.len() as int) =~= data@);
    }
    s
}

/// The hex SHA-256 fingerprint the broker stores for secrets.
pub open spec fn secret_fingerprint(secret: Seq<u8>) -> Seq<char> {
    hex_lower(sha256_of(secret))
}

/// The lowercase hex SHA-256 fingerprint of a secret's bytes.
pub fn fingerprint(secret: &str) -> (h: String)
    ensures
        h@ == secret_fingerprint(secret.spec_bytes()),
{
    let d = sha256_digest(secret.as_bytes());
    to_hex_lower(d.as_slice())
}

} // verus!
