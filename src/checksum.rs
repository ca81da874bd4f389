use vstd::prelude::*;
use vstd::string::*;

use sha2::Digest;

use crate::error::YlemVmError;
use crate::version::Version;

verus! {

/// The lower-case hex digit for `n`.
pub open spec fn nibble_char(n: nat) -> char {
    if n == 0 { '0' }
    else if n == 1 { '1' }
    else if n == 2 { '2' }
    else if n == 3 { '3' }
    else if n == 4 { '4' }
    else if n == 5 { '5' }
    else if n == 6 { '6' }
    else if n == 7 { '7' }
    else if n == 8 { '8' }
    else if n == 9 { '9' }
    else if n == 10 { 'a' }
    else if n == 11 { 'b' }
    else if n == 12 { 'c' }
    else if n == 13 { 'd' }
    else if n == 14 { 'e' }
    else { 'f' }
}

/// The value of a hex digit of either case.
pub open spec fn hex_value(c: char) -> Option<nat> {
    match c {
        '0' => Some(0nat),
        '1' => Some(1nat),
        '2' => Some(2nat),
        '3' => Some(3nat),
        '4' => Some(4nat),
        '5' => Some(5nat),
        '6' => Some(6nat),
        '7' => Some(7nat),
        '8' => Some(8nat),
        '9' => Some(9nat),
        'a' | 'A' => Some(10nat),
        'b' | 'B' => Some(11nat),
        'c' | 'C' => Some(12nat),
        'd' | 'D' => Some(13nat),
        'e' | 'E' => Some(14nat),
        'f' | 'F' => Some(15nat),
        _ => None,
    }
}

/// Two lower-case hex digits for each byte, high nibble first.
pub open spec fn hex_text(b: Seq<u8>) -> Seq<char> {
    Seq::new(
        2 * b.len(),
        |k: int|
            if k % 2 == 0 {
                nibble_char((b[k / 2] / 16) as nat)
            } else {
                nibble_char((b[k / 2] % 16) as nat)
            },
    )
}

/// The bytes that a hex text stands for: `None` where its length is odd or a character
/// is not a hex digit.
pub open spec fn hex_bytes(s: Seq<char>) -> Option<Seq<u8>> {
    if s.len() % 2 == 0 && forall|i: int| 0 <= i < s.len() ==> (#[trigger] hex_value(s[i])) is Some {
        Some(
            Seq::new(
                (s.len() / 2) as nat,
                |i: int| (hex_value(s[2 * i])->0 * 16 + hex_value(s[2 * i + 1])->0) as u8,
            ),
        )
    } else {
        None
    }
}

/// `s` without the `0x` prefixes at its start.
pub open spec fn strip_hex_prefix(s: Seq<char>) -> Seq<char>
    decreases s.len(),
{
    if s.len() >= 2 && s[0] == '0' && s[1] == 'x' {
        strip_hex_prefix(s.skip(2))
    } else {
        s
    }
}

/// The SHA-256 digest of `data`.
pub uninterp spec fn sha256_of(data: Seq<u8>) -> Seq<u8>;

/// Relies on hex::encode: two lower-case hex digits per byte.
#[verifier::external_body]
fn hex_encode(b: &[u8]) -> (r: String)
    ensures
        r@ == hex_text(b@),
{
    hex::encode(b)
}

/// Relies on hex::decode: two hex digits of either case per byte; an odd length or any
/// other character is an error.
#[verifier::external_body]
fn hex_decode(s: &str) -> (r: Option<Vec<u8>>)
    ensures
        r is Some <==> hex_bytes(s@) is Some,
        r is Some ==> r->0@ == hex_bytes(s@)->0,
{
    hex::decode(s).ok()
}

/// Relies on sha2::Sha256: the 32-byte SHA-256 digest of the bytes.
#[verifier::external_body]
fn sha256(data: &[u8]) -> (r: Vec<u8>)
    ensures
        r@ == sha256_of(data@),
        r@.len() == 32,
{
    sha2::Sha256::digest(data).to_vec()
}

proof fn lemma_nibble(n: nat)
    requires
        n < 16,
    ensures
        hex_value(nibble_char(n)) == Some(n),
{
}

/// Hex text reads back to the bytes it was made from.
pub proof fn lemma_hex_round_trip(b: Seq<u8>)
    ensures
        hex_bytes(hex_text(b)) == Some(b),
{
    let t = hex_text(b);
    assert forall|i: int| 0 <= i < t.len() implies (#[trigger] hex_value(t[i])) is Some by {
        lemma_nibble((b[i / 2] / 16) as nat);
        lemma_nibble((b[i / 2] % 16) as nat);
    }
    let d = hex_bytes(t)->0;
    assert forall|i: int| 0 <= i < b.len() implies d[i] == b[i] by {
        let x = b[i];
        lemma_nibble((x / 16) as nat);
        lemma_nibble((x % 16) as nat);
        assert(t[2 * i] == nibble_char((x / 16) as nat));
        assert(t[2 * i + 1] == nibble_char((x % 16) as nat));
        assert((x / 16) * 16 + x % 16 == x) by (nonlinear_arith);
    }
    assert(d =~= b);
}

/// A hex text with no `0x` prefix at its start is left as it is.
pub proof fn lemma_hex_text_unprefixed(b: Seq<u8>)
    ensures
        strip_hex_prefix(hex_text(b)) == hex_text(b),
{
    let t = hex_text(b);
    if t.len() >= 2 {
        assert(t[1] == nibble_char((b[0] % 16) as nat));
    }
}

/// The hex text of `b`.
pub fn to_hex(b: &[u8]) -> (r: String)
    ensures
        r@ == hex_text(b@),
{
    hex_encode(b)
}

/// Reads a checksum written in hex, with or without `0x` prefixes.
pub fn decode_checksum(s: &str) -> (r: Option<Vec<u8>>)
    ensures
        r is Some <==> hex_bytes(strip_hex_prefix(s@)) is Some,
        r is Some ==> r->0@ == hex_bytes(strip_hex_prefix(s@))->0,
{
    let mut rest = s;
    let n = s.unicode_len();
    let mut start: usize = 0;
    while n - start >= 2 && rest.get_char(0) == '0' && rest.get_char(1) == 'x'
        invariant
            n == s@.len(),
            start <= n,
            rest@ == s@.skip(start as int),
            strip_hex_prefix(rest@) == strip_hex_prefix(s@),
        decreases n - start,
    {
        assert(rest@.skip(2) =~= s@.skip(start + 2));
        rest = rest.substring_char(2, n - start);
        start = start + 2;
    }
    hex_decode(rest)
}

/// Whether two byte strings are equal.
pub fn bytes_equal(a: &[u8], b: &[u8]) -> (r: bool)
    ensures
        r == (a@ == b@),
{
    if a.len() != b.len() {
        return false;
    }
    let mut i: usize = 0;
    while i < a.len()
        invariant
            a@.len() == b@.len(),
            i <= a@.len(),
            a@.subrange(0, i as int) == b@.subrange(0, i as int),
        decreases a@.len() - i,
    {
        if a[i] != b[i] {
            return false;
        }
        assert(a@.subrange(0, i + 1) =~= a@.subrange(0, i as int).push(a@[i as int]));
        assert(b@.subrange(0, i + 1) =~= b@.subrange(0, i as int).push(b@[i as int]));
        i = i + 1;
    }
    assert(a@ =~= a@.subrange(0, a@.len() as int));
    assert(b@ =~= b@.subrange(0, b@.len() as int));
    true
}

/// The outcome of comparing a computed digest with the recorded one.
pub open spec fn digest_verdict(
    version: Seq<char>,
    actual: Seq<u8>,
    expected: Seq<u8>,
    r: Result<(), YlemVmError>,
) -> bool {
    if actual == expected {
        r is Ok
    } else {
        r matches Err(YlemVmError::ChecksumMismatch { version: v, expected: e, actual: a })
            && v@ == version && e@ == hex_text(expected) && a@ == hex_text(actual)
    }
}

/// Compares the digest `actual` of a download of `version` with the recorded `expected`.
pub fn check_digest(actual: &[u8], expected: &[u8], version: &Version) -> (r: Result<
    (),
    YlemVmError,
>)
    ensures
        digest_verdict(version@.text(), actual@, expected@, r),
{
    if bytes_equal(actual, expected) {
        Ok(())
    } else {
        Err(
            YlemVmError::ChecksumMismatch {
                version: version.to_text(),
                expected: hex_encode(expected),
                actual: hex_encode(actual),
            },
        )
    }
}

/// Checks that `binbytes` has the SHA-256 digest `expected`.
pub fn ensure_checksum(binbytes: &[u8], version: &Version, expected: &[u8]) -> (r: Result<
    (),
    YlemVmError,
>)
    ensures
        digest_verdict(version@.text(), sha256_of(binbytes@), expected@, r),
{
    let actual = sha256(binbytes);
    check_digest(actual.as_slice(), expected, version)
}

} // verus!
