//! Digests, and the identities that are made of them.

use sha2::Digest;
use vstd::prelude::*;

verus! {

/// The SHA-256 digest of some bytes.
pub uninterp spec fn sha256(bytes: Seq<u8>) -> Seq<u8>;

/// `sha2::Sha256::digest`. A digest has 32 bytes.
#[verifier::external_body]
fn sha256_digest(bytes: &[u8]) -> (digest: Vec<u8>)
    ensures
        digest@ == sha256(bytes@),
        digest@.len() == 32,
{
    sha2::Sha256::digest(bytes).to_vec()
}

/// The hexadecimal digit of a number below 16.
pub open spec fn hex_digit(n: int) -> char {
    if n < 10 {
        (48 + n) as char
    } else {
        (87 + n) as char
    }
}

/// Two small hexadecimal digits for each byte, the higher half first.
pub open spec fn hex_of(bytes: Seq<u8>) -> Seq<char> {
    Seq::new(
        2 * bytes.len(),
        |i: int|
            if i % 2 == 0 {
                hex_digit(bytes[i / 2] as int / 16)
            } else {
                hex_digit(bytes[i / 2] as int % 16)
            },
    )
}

/// `hex::encode`: two small hexadecimal digits for each byte.
#[verifier::external_body]
fn hex_text(bytes: &[u8]) -> (encoded: String)
    ensures
        encoded@ == hex_of(bytes@),
{
    hex::encode(bytes)
}

/// The digest of a text, in hexadecimal.
pub open spec fn text_digest(text: Seq<char>) -> Seq<char> {
    hex_of(sha256(vstd::utf8::encode_utf8(text)))
}

/// The digest of a text, in hexadecimal.
pub fn hash_text(text: &str) -> (digest: String)
    ensures
        digest@ == text_digest(text@),
{
    let bytes = sha256_digest(text.as_bytes());
    hex_text(bytes.as_slice())
}

/// An identity for `value` within `namespace`: the same for the same two texts.
pub open spec fn stable_id(namespace: Seq<char>, value: Seq<char>) -> Seq<char> {
    hex_of(sha256(vstd::utf8::encode_utf8(namespace + "\0"@ + value)).take(16))
}

/// An identity for `value` within `namespace`: 32 hexadecimal digits, and the same
/// for the same two texts.
pub fn stable_idempotency_id(namespace: &str, value: &str) -> (id: String)
    ensures
        id@ == stable_id(namespace@, value@),
        id@.len() == 32,
{
    let mut named = namespace.to_owned();
    named.append("\0");
    named.append(value);
    let digest = sha256_digest(named.as_str().as_bytes());
    let mut half: Vec<u8> = Vec::new();
    let mut i: usize = 0;
    while i < 16
        invariant
            i <= 16,
            digest.len() == 32,
            half@ =~= digest@.take(i as int),
        decreases 16 - i,
    {
        half.push(digest[i]);
        i = i + 1;
    }
    hex_text(half.as_slice())
}

/// Every character of a hexadecimal text is one of the sixteen digits.
pub proof fn hex_texts_hold_digits(bytes: Seq<u8>, i: int)
    requires
        0 <= i < 2 * bytes.len(),
    ensures
        ({
            let c = hex_of(bytes)[i] as int;
            48 <= c <= 57 || 97 <= c <= 102
        }),
{
}

/// Bytes are written by two digits each, in order, the higher one first.
pub proof fn bytes_are_written_by_two_digits(first: Seq<u8>, second: Seq<u8>, byte: u8)
    ensures
        hex_of(first + second) == hex_of(first) + hex_of(second),
        hex_of(seq![byte]).len() == 2,
        byte < 10 ==> hex_of(seq![byte]) == seq!['0', (48 + byte) as char],
        byte == 0xaf ==> hex_of(seq![byte]) == seq!['a', 'f'],
        byte == 0x7c ==> hex_of(seq![byte]) == seq!['7', 'c'],
{
    assert(hex_of(first + second) =~= hex_of(first) + hex_of(second)) by {
        let all = first + second;
        assert forall|i: int| 0 <= i < hex_of(all).len() implies hex_of(all)[i] == (hex_of(first)
            + hex_of(second))[i] by {
            if i >= 2 * first.len() {
                let k = i - 2 * first.len();
                assert(i / 2 == first.len() + k / 2);
                assert(i % 2 == k % 2);
                assert(all[i / 2] == second[k / 2]);
            } else {
                assert(all[i / 2] == first[i / 2]);
            }
        }
    }
    let one = hex_of(seq![byte]);
    assert(one[0] == hex_digit(byte as int / 16));
    assert(one[1] == hex_digit(byte as int % 16));
    if byte < 10 {
        assert(one =~= seq!['0', (48 + byte) as char]);
    }
    if byte == 0xaf {
        assert(one =~= seq!['a', 'f']);
    }
    if byte == 0x7c {
        assert(one =~= seq!['7', 'c']);
    }
}

} // verus!
