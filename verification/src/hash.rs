//! Content hashes.
use vstd::prelude::*;

use crate::list::{take_all, take_next};

verus! {

/// The SHA-256 hash of some bytes.
pub uninterp spec fn sha256(bytes: Seq<u8>) -> Seq<u8>;

/// `sha2::Sha256::digest`: a function of the bytes alone.
#[verifier::external_body]
pub(crate) fn hash_bytes(bytes: &Vec<u8>) -> (out: [u8; 32])
    ensures
        out@ == sha256(bytes@),
{
    <sha2::Sha256 as sha2::Digest>::digest(bytes).into()
}

pub fn same_hash(a: &[u8; 32], b: &[u8; 32]) -> (r: bool)
    ensures
        r == (a@ == b@),
{
    let mut i: usize = 0;
    while i < 32
        invariant
            i <= 32,
            forall|k: int| 0 <= k < i ==> a@[k] == b@[k],
        decreases 32 - i,
    {
        if a[i] != b[i] {
            return false;
        }
        i = i + 1;
    }
    assert(a@ =~= b@);
    true
}

/// A hexadecimal digit, in lower case.
pub open spec fn hex_digit(n: int) -> char {
    if n < 10 {
        ('0' as int + n) as char
    } else {
        ('a' as int + n - 10) as char
    }
}

/// Some bytes in hexadecimal digits, two for each.
pub open spec fn hex_text(bytes: Seq<u8>) -> Seq<char>
    decreases bytes.len(),
{
    if bytes.len() == 0 {
        seq![]
    } else {
        let byte = bytes.last() as int;
        hex_text(bytes.drop_last()).push(hex_digit(byte / 16)).push(hex_digit(byte % 16))
    }
}

fn hex_char(n: u8) -> (c: char)
    requires
        n < 16,
    ensures
        c == hex_digit(n as int),
{
    if n < 10 {
        (48 + n) as char
    } else {
        (87 + n) as char
    }
}

fn hex_of(bytes: &[u8; 32]) -> (out: String)
    ensures
        out@ == hex_text(bytes@),
        out@.len() == 64,
{
    let ghost all = bytes@;
    let mut out = String::new();
    let mut i: usize = 0;
    while i < 32
        invariant
            i <= 32,
            all == bytes@,
            all.len() == 32,
            out@ == hex_text(all.take(i as int)),
            out@.len() == 2 * i,
        decreases 32 - i,
    {
        proof {
            take_next(all, i as int);
        }
        out.push(hex_char(bytes[i] / 16));
        out.push(hex_char(bytes[i] % 16));
        i = i + 1;
    }
    proof {
        take_all(all);
    }
    out
}

/// The hash of a text's UTF-8 form, in hexadecimal digits.
pub open spec fn text_hash(text: Seq<char>) -> Seq<char> {
    hex_text(sha256(vstd::utf8::encode_utf8(text)))
}

pub fn hash_text(text: &str) -> (out: String)
    ensures
        out@ == text_hash(text@),
        out@.len() == 64,
{
    hex_of(&hash_bytes(&text.as_bytes_vec()))
}

} // verus!
