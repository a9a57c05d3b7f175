//! The hash by which unchanged content is recognised.

use crate::encode::{hex_value, law_hex_reads_back, lower_hex, lower_hex_text};
use vstd::prelude::*;
use vstd::string::*;
use vstd::utf8::*;

verus! {

/// The SHA-256 digest of a byte string.
pub uninterp spec fn sha256(bytes: Seq<u8>) -> Seq<u8>;

/// The SHA-256 digest of the UTF-8 form of a text, in lower-case hexadecimal.
pub open spec fn content_hash(html: Seq<char>) -> Seq<char> {
    lower_hex(sha256(encode_utf8(html)))
}

/// `sha2::Sha256::digest`: the digest of `bytes`, 32 bytes that depend on
/// `bytes` alone.
#[verifier::external_body]
fn sha256_digest(bytes: &[u8]) -> (digest: Vec<u8>)
    ensures
        digest@ == sha256(bytes@),
        digest@.len() == 32,
{
    <sha2::Sha256 as sha2::Digest>::digest(bytes).to_vec()
}

/// The hash of a page, by which an unchanged page is recognised.
pub fn hash_html(html: &str) -> (hash: String)
    ensures
        hash@ == content_hash(html@),
        hash@ == lower_hex(sha256(encode_utf8(html@))),
        sha256(encode_utf8(html@)).len() == 32,
        hash@.len() == 64,
{
    lower_hex_text(&sha256_digest(html.as_bytes()))
}

/// The hash of a page is made from the digest of all the bytes of the page, 64
/// lower-case hexadecimal digits for 32 bytes: each byte of the digest can be
/// read from it.
pub proof fn law_hash_holds_the_digest_of_the_whole_page(page: Seq<char>, i: int)
    requires
        sha256(encode_utf8(page)).len() == 32,
        0 <= i < 32,
    ensures
        content_hash(page).len() == 64,
        16 * hex_value(content_hash(page)[2 * i]) + hex_value(content_hash(page)[2 * i + 1])
            == sha256(encode_utf8(page))[i],
        forall|k: int|
            0 <= k < 64 ==> ('0' <= #[trigger] content_hash(page)[k] <= '9' || 'a'
                <= content_hash(page)[k] <= 'f'),
{
    law_hex_reads_back(sha256(encode_utf8(page)), i);
}

/// Two pages have the same hash only where the digests of all their bytes are
/// the same: an edit anywhere in a page shows, unless SHA-256 itself takes the
/// two pages for one.
pub proof fn law_same_hash_means_same_digest(page: Seq<char>, other: Seq<char>)
    requires
        sha256(encode_utf8(page)).len() == 32,
        sha256(encode_utf8(other)).len() == 32,
    ensures
        content_hash(page) == content_hash(other) <==> sha256(encode_utf8(page)) == sha256(
            encode_utf8(other),
        ),
        encode_utf8(page) == encode_utf8(other) ==> content_hash(page) == content_hash(other),
{
    let x = sha256(encode_utf8(page));
    let y = sha256(encode_utf8(other));
    if content_hash(page) == content_hash(other) {
        assert forall|i: int| 0 <= i < 32 implies x[i] == y[i] by {
            law_hash_holds_the_digest_of_the_whole_page(page, i);
            law_hash_holds_the_digest_of_the_whole_page(other, i);
        }
        assert(x =~= y);
    }
}

} // verus!
