//! Content digests: SHA-256 in the form `sha256:<hex>`.

use sha2::Digest;
use vstd::prelude::*;

use crate::text;
use crate::text::same_text;

verus! {

/// The hasher of the `sha2` crate, which takes its message piece by piece.
#[verifier::external_type_specification]
#[verifier::external_body]
pub struct ExSha256(sha2::Sha256);

/// The SHA-256 hash of a message, as `sha2::Sha256::digest` computes it.
pub uninterp spec fn sha256(message: Seq<u8>) -> Seq<u8>;

/// The bytes that a hasher has been given so far.
pub uninterp spec fn hashed(hasher: sha2::Sha256) -> Seq<u8>;

/// Bytes in hexadecimal: two lower-case digits for each, the higher one first.
pub open spec fn hex_text(bytes: Seq<u8>) -> Seq<char> {
    Seq::new(
        2 * bytes.len(),
        |i: int|
            text::hex_digit(
                if i % 2 == 0 {
                    bytes[i / 2] as int / 16
                } else {
                    bytes[i / 2] as int % 16
                },
            ),
    )
}

/// The digest that is written for a hash.
pub open spec fn hash_text(hash: Seq<u8>) -> Seq<char> {
    "sha256:"@ + hex_text(hash)
}

/// The digest of some data.
pub open spec fn digest_text(data: Seq<u8>) -> Seq<char> {
    hash_text(sha256(data))
}

/// A message that is hashed in pieces stays below this length, so that its length in bits fits in
/// 64 bits.
pub open spec fn hashable(length: nat) -> bool {
    length < 0x2000_0000_0000_0000
}

/// The hash of a message, from `sha2::Sha256::digest`.
///
/// The contract gives the result a name, and claims that it is 32 bytes long. A slice is far
/// shorter than the 2^61 bytes from which on its length in bits would overflow: no address space
/// holds as much.
#[verifier::external_body]
fn sha256_of(message: &[u8]) -> (hash: Vec<u8>)
    ensures
        hash@ == sha256(message@),
        hash@.len() == 32,
{
    sha2::Sha256::digest(message).to_vec()
}

/// A new hasher, from `sha2::Sha256::new`. It has been given nothing.
#[verifier::external_body]
pub(crate) fn new_hasher() -> (hasher: sha2::Sha256)
    ensures
        hashed(hasher) == Seq::<u8>::empty(),
{
    sha2::Sha256::new()
}

/// Gives a hasher the next piece of its message, with `sha2::Sha256::update`.
///
/// The contract claims that pieces follow one another: the message is all of them in order.
#[verifier::external_body]
pub(crate) fn update_hasher(hasher: &mut sha2::Sha256, piece: &[u8])
    requires
        hashable(hashed(*old(hasher)).len() + piece@.len()),
    ensures
        hashed(*final(hasher)) == hashed(*old(hasher)) + piece@,
{
    hasher.update(piece);
}

/// The hash of what a hasher has been given, from `sha2::Sha256::finalize`.
///
/// The contract claims that it is the hash of the whole message, as if hashed at once.
#[verifier::external_body]
pub(crate) fn finish_hasher(hasher: sha2::Sha256) -> (hash: Vec<u8>)
    requires
        hashable(hashed(hasher).len()),
    ensures
        hash@ == sha256(hashed(hasher)),
        hash@.len() == 32,
{
    hasher.finalize().to_vec()
}

/// Bytes in lower-case hexadecimal, from `hex::encode`.
///
/// The contract claims the whole result.
#[verifier::external_body]
fn hex_of(bytes: &[u8]) -> (res: String)
    ensures
        res@ == hex_text(bytes@),
{
    hex::encode(bytes)
}

/// The digest that is written for a hash.
pub fn format_digest(hash: &[u8]) -> (res: String)
    ensures
        res@ == hash_text(hash@),
{
    let mut res = "sha256:".to_owned();
    let digits = hex_of(hash);
    res.append(&digits);
    res
}

/// The digest of some data.
pub fn compute_digest(data: &[u8]) -> (res: String)
    ensures
        res@ == digest_text(data@),
        res@.len() == 71,
{
    let hash = sha256_of(data);
    proof {
        reveal_strlit("sha256:");
    }
    format_digest(&hash)
}

/// Whether some data has the expected digest.
pub fn verify_digest(data: &[u8], expected: &str) -> (res: bool)
    ensures
        res == (digest_text(data@) == expected@),
{
    let actual = compute_digest(data);
    same_text(&actual, expected)
}

/// A digest holds no slash.
pub proof fn law_digests_hold_no_slash(hash: Seq<u8>)
    ensures
        !hash_text(hash).contains('/'),
{
    reveal_strlit("sha256:");
    assert forall|i: int| 0 <= i < hash_text(hash).len() implies hash_text(hash)[i] != '/' by {
        if i >= 7 {
            assert(hash_text(hash)[i] == hex_text(hash)[i - 7]);
        }
    }
}

/// The number that a lower-case hexadecimal digit stands for; none of another character.
pub open spec fn hex_value(c: char) -> Option<int> {
    if '0' <= c <= '9' {
        Some(c as int - '0' as int)
    } else if 'a' <= c <= 'f' {
        Some(c as int - 'a' as int + 10)
    } else {
        None
    }
}

/// The bytes of a hash can be read in its digest: after `sha256:` two hexadecimal digits stand for
/// each.
pub proof fn law_digest_is_read_back(hash: Seq<u8>)
    ensures
        hash_text(hash).len() == 7 + 2 * hash.len(),
        hash_text(hash).take(7) == "sha256:"@,
        forall|i: int|
            0 <= i < hash.len() ==> {
                &&& hex_value(hash_text(hash)[7 + 2 * i]) is Some
                &&& hex_value(hash_text(hash)[7 + 2 * i + 1]) is Some
                &&& #[trigger] hash[i] as int == 16 * hex_value(hash_text(hash)[7 + 2 * i])->0
                    + hex_value(hash_text(hash)[7 + 2 * i + 1])->0
            },
{
    reveal_strlit("sha256:");
    assert(hash_text(hash).take(7) =~= "sha256:"@);
    assert forall|i: int| 0 <= i < hash.len() implies {
        &&& hex_value(hash_text(hash)[7 + 2 * i]) is Some
        &&& hex_value(hash_text(hash)[7 + 2 * i + 1]) is Some
        &&& #[trigger] hash[i] as int == 16 * hex_value(hash_text(hash)[7 + 2 * i])->0
            + hex_value(hash_text(hash)[7 + 2 * i + 1])->0
    } by {
        let high = hash[i] as int / 16;
        let low = hash[i] as int % 16;
        lemma_hex_digit(high);
        lemma_hex_digit(low);
        assert((2 * i) % 2 == 0 && (2 * i) / 2 == i);
        assert((2 * i + 1) % 2 == 1 && (2 * i + 1) / 2 == i);
        assert(hash_text(hash)[7 + 2 * i] == hex_text(hash)[2 * i]);
        assert(hash_text(hash)[7 + 2 * i + 1] == hex_text(hash)[2 * i + 1]);
        assert(hex_text(hash)[2 * i] == text::hex_digit(high));
        assert(hex_text(hash)[2 * i + 1] == text::hex_digit(low));
    }
}

pub(crate) proof fn lemma_hex_digit(d: int)
    requires
        0 <= d < 16,
    ensures
        hex_value(text::hex_digit(d)) == Some(d),
{
    if d < 10 {
        assert(text::digit(d) as int == '0' as int + d);
    } else {
        assert(text::hex_digit(d) as int == 'a' as int + d - 10);
    }
}

/// Different hashes have different digests.
pub proof fn law_digests_differ(a: Seq<u8>, b: Seq<u8>)
    ensures
        hash_text(a) == hash_text(b) <==> a == b,
{
    if hash_text(a) == hash_text(b) {
        law_digest_is_read_back(a);
        law_digest_is_read_back(b);
        assert(a =~= b) by {
            assert forall|i: int| 0 <= i < a.len() implies a[i] == b[i] by {
                assert(a[i] as int == b[i] as int);
            }
        }
    }
}

/// The digest of data is that of its hash, and no other text is.
pub proof fn law_digest_of_data(data: Seq<u8>, hash: Seq<u8>)
    ensures
        digest_text(data) == hash_text(hash) <==> hash == sha256(data),
{
    law_digests_differ(sha256(data), hash);
}

/// What can be hashed in pieces is what has a length in bits below 2^64.
pub proof fn law_hashable(length: nat)
    ensures
        hashable(length) <==> 8 * length < 0x1_0000_0000_0000_0000,
{
}

} // verus!
