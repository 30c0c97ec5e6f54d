//! Hashes and text encodings used by the protocol: SHA-256, unpadded URL-safe
//! Base64, JSON string literals and decimal numbers.

use base64ct::Encoding;
use sha2::Digest;
use vstd::prelude::*;
use vstd::string::*;

verus! {

/// The SHA-256 digest of `data`.
pub uninterp spec fn sha256_digest(data: Seq<u8>) -> Seq<u8>;

/// The unpadded URL-safe Base64 text of `data`.
pub uninterp spec fn base64url(data: Seq<u8>) -> Seq<char>;

/// What decoding the unpadded URL-safe Base64 text `text` into a buffer of 32
/// bytes gives: the decoded bytes, or `None` where the text is not valid
/// Base64 or decodes to more than 32 bytes.
pub uninterp spec fn base64url_decoded(text: Seq<u8>) -> Option<Seq<u8>>;

/// The JSON string literal for `text`: the text between double quotes, with the
/// characters that JSON reserves escaped.
pub uninterp spec fn json_quoted(text: Seq<char>) -> Seq<char>;

/// The JSON array of the texts `items[from..]`, each of which is JSON,
/// without the opening bracket and with the closing one.
pub open spec fn json_array_tail(items: Seq<Seq<char>>, from: int) -> Seq<char>
    decreases items.len() - from,
{
    if from >= items.len() {
        "]"@
    } else if from + 1 == items.len() {
        items[from] + "]"@
    } else {
        items[from] + ","@ + json_array_tail(items, from + 1)
    }
}

/// Calls `sha2::Sha256::digest`. The digest is named, not computed in
/// specifications; its length is the type's.
#[verifier::external_body]
pub(crate) fn sha256(data: &[u8]) -> (digest: [u8; 32])
    ensures
        digest@ == sha256_digest(data@),
{
    sha2::Sha256::digest(data).into()
}

/// Calls `base64ct::Base64UrlUnpadded::encode_string`, which panics on inputs
/// longer than a quarter of the address space; the text is named.
#[verifier::external_body]
pub(crate) fn base64url_encode(data: &[u8]) -> (text: String)
    requires
        data.len() <= usize::MAX / 4,
    ensures
        text@ == base64url(data@),
{
    base64ct::Base64UrlUnpadded::encode_string(data)
}

/// Calls `base64ct::Base64UrlUnpadded::decode` with a zeroed buffer of 32
/// bytes. The result is named; as the decoder hands back a part of the
/// buffer, it is never longer than 32 bytes.
#[verifier::external_body]
pub(crate) fn base64url_decode(text: &[u8]) -> (decoded: Option<Vec<u8>>)
    ensures
        decoded matches Some(bytes) ==> bytes.len() <= 32,
        match decoded {
            Some(bytes) => base64url_decoded(text@) == Some(bytes@),
            None => base64url_decoded(text@) is None,
        },
{
    let mut buffer = [0u8; 32];
    base64ct::Base64UrlUnpadded::decode(text, &mut buffer).ok().map(|bytes| bytes.to_vec())
}

/// Calls `serde_json::to_string` on a string slice, which cannot fail: the
/// serializer writes into memory. The literal is named.
#[verifier::external_body]
pub(crate) fn json_quote(text: &str) -> (quoted: String)
    ensures
        quoted@ == json_quoted(text@),
{
    serde_json::to_string(text).expect("a string always serializes")
}

/// A text of `n` characters has at most `4 * n` bytes in UTF-8.
pub proof fn lemma_encode_utf8_len(chars: Seq<char>)
    ensures
        vstd::utf8::encode_utf8(chars).len() <= 4 * chars.len(),
    decreases chars.len(),
{
    if chars.len() > 0 {
        lemma_encode_utf8_len(chars.drop_first());
    }
}

/// Whether two byte strings hold the same bytes.
pub fn bytes_equal(a: &[u8], b: &[u8]) -> (equal: bool)
    ensures
        equal == (a@ == b@),
{
    if a.len() != b.len() {
        return false;
    }
    let mut i: usize = 0;
    while i < a.len()
        invariant
            a.len() == b.len(),
            i <= a.len(),
            forall|j: int| 0 <= j < i ==> a@[j] == b@[j],
        decreases a.len() - i,
    {
        if a[i] != b[i] {
            return false;
        }
        i += 1;
    }
    assert(a@ =~= b@);
    true
}

/// Whether two texts hold the same characters.
pub fn text_equal(a: &str, b: &str) -> (equal: bool)
    ensures
        equal == (a@ == b@),
{
    let equal = bytes_equal(a.as_bytes(), b.as_bytes());
    proof {
        vstd::utf8::encode_utf8_decode_utf8(a@);
        vstd::utf8::encode_utf8_decode_utf8(b@);
    }
    equal
}

/// The decimal digit `d` as text.
pub open spec fn decimal_digit(d: nat) -> Seq<char> {
    if d == 0 {
        "0"@
    } else if d == 1 {
        "1"@
    } else if d == 2 {
        "2"@
    } else if d == 3 {
        "3"@
    } else if d == 4 {
        "4"@
    } else if d == 5 {
        "5"@
    } else if d == 6 {
        "6"@
    } else if d == 7 {
        "7"@
    } else if d == 8 {
        "8"@
    } else {
        "9"@
    }
}

/// The decimal notation of `n`, without sign or leading zeros.
pub open spec fn decimal(n: nat) -> Seq<char>
    decreases n,
{
    if n < 10 {
        decimal_digit(n)
    } else {
        decimal(n / 10) + decimal_digit(n % 10)
    }
}

fn digit_text(d: u128) -> (text: &'static str)
    requires
        d < 10,
    ensures
        text@ == decimal_digit(d as nat),
{
    if d == 0 {
        "0"
    } else if d == 1 {
        "1"
    } else if d == 2 {
        "2"
    } else if d == 3 {
        "3"
    } else if d == 4 {
        "4"
    } else if d == 5 {
        "5"
    } else if d == 6 {
        "6"
    } else if d == 7 {
        "7"
    } else if d == 8 {
        "8"
    } else {
        "9"
    }
}

/// Appends the decimal notation of `n` to `out`.
pub fn append_decimal(out: &mut String, n: u128)
    ensures
        final(out)@ == old(out)@ + decimal(n as nat),
    decreases n,
{
    if n >= 10 {
        append_decimal(out, n / 10);
    }
    out.append(digit_text(n % 10));
}

} // verus!
