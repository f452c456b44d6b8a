//! Content fingerprints: the SHA-256 digest of a file's bytes, written as
//! lowercase hexadecimal.

use sha2::Digest;
use sha2::Sha256;
use vstd::prelude::*;
use vstd::string::StringExecFns;

verus! {

/// The SHA-256 digest of `content`, as `sha2` computes it.
pub uninterp spec fn sha256_digest(content: Seq<u8>) -> Seq<u8>;

/// The sixteen lowercase hexadecimal digits, in order of value.
pub open spec fn hex_digits() -> Seq<char> {
    seq!['0', '1', '2', '3', '4', '5', '6', '7', '8', '9', 'a', 'b', 'c', 'd', 'e', 'f']
}

/// The character at position `i` of the hexadecimal form of `bytes`: the high
/// nibble of a byte comes first.
pub open spec fn hex_char_at(bytes: Seq<u8>, i: int) -> char {
    if i % 2 == 0 {
        hex_digits()[bytes[i / 2] as int / 16]
    } else {
        hex_digits()[bytes[i / 2] as int % 16]
    }
}

/// Lowercase hexadecimal form of `bytes`: two digits per byte.
pub open spec fn hex_lower(bytes: Seq<u8>) -> Seq<char> {
    Seq::new(2 * bytes.len(), |i: int| hex_char_at(bytes, i))
}

/// The fingerprint of a file whose content is `content`.
pub open spec fn fingerprint_of(content: Seq<u8>) -> Seq<char> {
    hex_lower(sha256_digest(content))
}

/// Calls `sha2::Sha256::digest` on the whole content and copies the array it
/// returns into a vector. Trusted: the result is the SHA-256 digest of
/// `content`, which `sha2` fixes at 32 bytes (its `OutputSize` is `U32`).
#[verifier::external_body]
fn sha256(content: &[u8]) -> (digest: Vec<u8>)
    ensures
        digest@ == sha256_digest(content@),
        digest@.len() == 32,
{
    Sha256::digest(content).to_vec()
}

/// One hexadecimal digit as a string slice.
fn hex_digit(nibble: u8) -> (digit: &'static str)
    requires
        nibble < 16,
    ensures
        digit@ == seq![hex_digits()[nibble as int]],
{
    proof {
        reveal_strlit("0");
        reveal_strlit("1");
        reveal_strlit("2");
        reveal_strlit("3");
        reveal_strlit("4");
        reveal_strlit("5");
        reveal_strlit("6");
        reveal_strlit("7");
        reveal_strlit("8");
        reveal_strlit("9");
        reveal_strlit("a");
        reveal_strlit("b");
        reveal_strlit("c");
        reveal_strlit("d");
        reveal_strlit("e");
        reveal_strlit("f");
    }
    let digit = match nibble {
        0 => "0",
        1 => "1",
        2 => "2",
        3 => "3",
        4 => "4",
        5 => "5",
        6 => "6",
        7 => "7",
        8 => "8",
        9 => "9",
        10 => "a",
        11 => "b",
        12 => "c",
        13 => "d",
        14 => "e",
        _ => "f",
    };
    digit
}

/// Writes `bytes` in lowercase hexadecimal.
pub fn to_hex(bytes: &[u8]) -> (text: String)
    ensures
        text@ == hex_lower(bytes@),
{
    let mut text = String::new();
    let mut i: usize = 0;
    while i < bytes.len()
        invariant
            i <= bytes@.len(),
            text@ == hex_lower(bytes@.subrange(0, i as int)),
        decreases bytes@.len() - i,
    {
        let byte = bytes[i];
        text.append(hex_digit(byte / 16));
        text.append(hex_digit(byte % 16));
        i += 1;
    }
    text
}

/// The fingerprint of `content`: its SHA-256 digest in lowercase hexadecimal,
/// 64 characters long. The whole content goes into the digest.
pub fn fingerprint(content: &[u8]) -> (text: String)
    ensures
        text@ == fingerprint_of(content@),
        text@.len() == 64,
{
    let digest = sha256(content);
    to_hex(digest.as_slice())
}

/// The same content has the same fingerprint, whenever and wherever it is
/// taken.
pub proof fn lemma_fingerprint_is_deterministic(first: Seq<u8>, second: Seq<u8>)
    requires
        first =~= second,
    ensures
        fingerprint_of(first) == fingerprint_of(second),
{
}

/// The hexadecimal form tells byte strings apart: two of them that are
/// written alike are the same.
pub proof fn lemma_hex_lower_is_injective(first: Seq<u8>, second: Seq<u8>)
    requires
        hex_lower(first) == hex_lower(second),
    ensures
        first == second,
{
    assert(2 * first.len() == hex_lower(first).len() == 2 * second.len());
    assert forall|i: int| 0 <= i < first.len() implies first[i] == second[i] by {
        assert(hex_char_at(first, 2 * i) == hex_lower(second)[2 * i]);
        assert(hex_char_at(first, 2 * i + 1) == hex_lower(second)[2 * i + 1]);
    }
}

/// Two contents have the same fingerprint exactly when they have the same
/// digest: the fingerprint loses nothing of the digest.
pub proof fn lemma_fingerprint_follows_digest(first: Seq<u8>, second: Seq<u8>)
    ensures
        fingerprint_of(first) == fingerprint_of(second) <==> sha256_digest(first) == sha256_digest(
            second,
        ),
{
    if fingerprint_of(first) == fingerprint_of(second) {
        lemma_hex_lower_is_injective(sha256_digest(first), sha256_digest(second));
    }
}

} // verus!
