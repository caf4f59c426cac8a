//! Utility helpers: hex strings, CompactSize varints, and Base58Check.

use crate::crypto::sha256d;
use crate::crypto::spec_sha256d;
use crate::error::SdkError;
use vstd::bytes::*;
use vstd::prelude::*;
use vstd::slice::slice_subrange;
use vstd::string::StringSliceAdditionalSpecFns;

verus! {

// ---------------------------------------------------------------------------
// Hex strings
// ---------------------------------------------------------------------------

/// The ASCII code of the lower-case hex digit for a nibble.
pub open spec fn spec_hex_digit_code(n: u8) -> u8
    recommends
        n < 16,
{
    if n < 10 {
        (0x30 + n) as u8
    } else {
        (0x57 + n) as u8
    }
}

/// The lower-case hex rendering of a byte sequence, two characters per byte.
pub open spec fn spec_hex_chars(b: Seq<u8>) -> Seq<char> {
    Seq::new(
        2 * b.len(),
        |i: int|
            if i % 2 == 0 {
                spec_hex_digit_code(b[i / 2] / 16) as char
            } else {
                spec_hex_digit_code(b[i / 2] % 16) as char
            },
    )
}

/// True for the ASCII code of a hex digit (either case).
pub open spec fn spec_is_hex_digit(c: u8) -> bool {
    (0x30 <= c <= 0x39) || (0x61 <= c <= 0x66) || (0x41 <= c <= 0x46)
}

/// The value of a hex digit given by its ASCII code.
pub open spec fn spec_hex_val(c: u8) -> u8
    recommends
        spec_is_hex_digit(c),
{
    if 0x30 <= c <= 0x39 {
        (c - 0x30) as u8
    } else if 0x61 <= c <= 0x66 {
        (c - 0x61 + 10) as u8
    } else if 0x41 <= c <= 0x46 {
        (c - 0x41 + 10) as u8
    } else {
        0
    }
}

/// True for the six ASCII whitespace bytes.
pub open spec fn spec_is_ascii_ws(c: u8) -> bool {
    c == 0x20 || (0x09 <= c <= 0x0D)
}

/// `b` with leading and trailing ASCII whitespace removed.
pub open spec fn spec_trim_ascii(b: Seq<u8>) -> Seq<u8>
    decreases b.len(),
{
    if b.len() > 0 && spec_is_ascii_ws(b[0]) {
        spec_trim_ascii(b.drop_first())
    } else if b.len() > 0 && spec_is_ascii_ws(b.last()) {
        spec_trim_ascii(b.drop_last())
    } else {
        b
    }
}

/// A byte sequence parses as hex when its length is even and every byte is a
/// hex digit.
pub open spec fn spec_hex_ok(b: Seq<u8>) -> bool {
    b.len() % 2 == 0 && (forall|i: int| 0 <= i < b.len() ==> spec_is_hex_digit(#[trigger] b[i]))
}

/// The bytes denoted by a hex digit sequence, one byte per digit pair.
pub open spec fn spec_hex_decoded(b: Seq<u8>) -> Seq<u8>
    recommends
        spec_hex_ok(b),
{
    Seq::new(b.len() / 2, |i: int| (spec_hex_val(b[2 * i]) * 16 + spec_hex_val(b[2 * i + 1])) as u8)
}

/// Relies on `String::from_utf8`: ASCII bytes convert to the string holding
/// exactly those characters.
#[verifier::external_body]
fn ascii_to_string(bytes: Vec<u8>) -> (r: String)
    requires
        forall|i: int| 0 <= i < bytes@.len() ==> bytes@[i] < 128,
    ensures
        r@.len() == bytes@.len(),
        forall|i: int| 0 <= i < bytes@.len() ==> r@[i] == (#[trigger] bytes@[i]) as char,
{
    String::from_utf8(bytes).unwrap_or_default()
}

/// Renders `bytes` as a lower-case hex string, two digits per byte.
#[verifier::loop_isolation(false)]
pub fn hex_encode(bytes: &[u8]) -> (r: String)
    ensures
        r@ == spec_hex_chars(bytes@),
{
    let mut codes: Vec<u8> = Vec::new();
    let mut k: usize = 0;
    while k < bytes.len()
        invariant
            k <= bytes@.len(),
            codes@.len() == 2 * k,
            forall|i: int|
                0 <= i < codes@.len() ==> #[trigger] codes@[i] == if i % 2 == 0 {
                    spec_hex_digit_code(bytes@[i / 2] / 16)
                } else {
                    spec_hex_digit_code(bytes@[i / 2] % 16)
                },
        decreases bytes@.len() - k,
    {
        let b = *vstd::slice::slice_index_get(bytes, k);
        let hi = b / 16;
        let lo = b % 16;
        codes.push(if hi < 10 { 0x30 + hi } else { 0x57 + hi });
        codes.push(if lo < 10 { 0x30 + lo } else { 0x57 + lo });
        k = k + 1;
    }
    assert(forall|i: int| 0 <= i < codes@.len() ==> codes@[i] < 128);
    let s = ascii_to_string(codes);
    proof {
        assert forall|i: int| 0 <= i < s@.len() implies s@[i] == spec_hex_chars(bytes@)[i] by {
            assert(codes@[i] < 128);
        }
        assert(s@ =~= spec_hex_chars(bytes@));
    }
    s
}

/// The ASCII-code value of one hex digit, or an invalid-argument error.
pub fn from_hex_nibble(c: u8) -> (r: Result<u8, SdkError>)
    ensures
        match r {
            Ok(v) => spec_is_hex_digit(c) && v == spec_hex_val(c),
            Err(e) => !spec_is_hex_digit(c) && e matches SdkError::InvalidArgument(_),
        },
{
    if 0x30 <= c && c <= 0x39 {
        Ok(c - 0x30)
    } else if 0x61 <= c && c <= 0x66 {
        Ok(c - 0x61 + 10)
    } else if 0x41 <= c && c <= 0x46 {
        Ok(c - 0x41 + 10)
    } else {
        Err(SdkError::InvalidArgument("invalid hex nibble"))
    }
}

/// Decodes a hex string (surrounding ASCII whitespace ignored) into bytes.
#[verifier::loop_isolation(false)]
pub fn hex_decode(s: &str) -> (r: Result<Vec<u8>, SdkError>)
    ensures
        r is Ok <==> spec_hex_ok(spec_trim_ascii(s.spec_bytes())),
        r matches Ok(v) ==> v@ == spec_hex_decoded(spec_trim_ascii(s.spec_bytes())),
        r matches Err(e) ==> e matches SdkError::InvalidArgument(_),
{
    let all = s.as_bytes();
    let mut lo: usize = 0;
    let mut hi: usize = all.len();
    proof {
        assert(all@.subrange(0, all@.len() as int) =~= all@);
    }
    while lo < hi && is_ascii_ws(*vstd::slice::slice_index_get(all, lo))
        invariant
            0 <= lo <= hi <= all@.len(),
            spec_trim_ascii(all@) == spec_trim_ascii(all@.subrange(lo as int, hi as int)),
        decreases hi - lo,
    {
        proof {
            assert(all@.subrange(lo as int, hi as int).drop_first() =~= all@.subrange(
                lo as int + 1,
                hi as int,
            ));
        }
        lo = lo + 1;
    }
    while lo < hi && is_ascii_ws(*vstd::slice::slice_index_get(all, hi - 1))
        invariant
            0 <= lo <= hi <= all@.len(),
            spec_trim_ascii(all@) == spec_trim_ascii(all@.subrange(lo as int, hi as int)),
            lo < hi ==> !spec_is_ascii_ws(all@[lo as int]),
        decreases hi - lo,
    {
        proof {
            assert(all@.subrange(lo as int, hi as int).drop_last() =~= all@.subrange(
                lo as int,
                hi as int - 1,
            ));
        }
        hi = hi - 1;
    }
    let bytes = slice_subrange(all, lo, hi);
    assert(spec_trim_ascii(all@) == bytes@);
    let ghost t = bytes@;
    if bytes.len() % 2 != 0 {
        return Err(SdkError::InvalidArgument("hex must have even length"));
    }
    let mut out: Vec<u8> = Vec::with_capacity(bytes.len() / 2);
    let mut i: usize = 0;
    while i < bytes.len()
        invariant
            t == bytes@,
            t.len() % 2 == 0,
            i % 2 == 0,
            i <= t.len(),
            out@.len() == i / 2,
            forall|j: int| 0 <= j < i ==> spec_is_hex_digit(#[trigger] t[j]),
            forall|j: int|
                0 <= j < out@.len() ==> #[trigger] out@[j] == (spec_hex_val(t[2 * j]) * 16
                    + spec_hex_val(t[2 * j + 1])) as u8,
        decreases t.len() - i,
    {
        let c0 = *vstd::slice::slice_index_get(bytes, i);
        let c1 = *vstd::slice::slice_index_get(bytes, i + 1);
        let v0 = match from_hex_nibble(c0) {
            Ok(v) => v,
            Err(e) => {
                assert(!spec_is_hex_digit(t[i as int]));
                return Err(e);
            },
        };
        let v1 = match from_hex_nibble(c1) {
            Ok(v) => v,
            Err(e) => {
                assert(!spec_is_hex_digit(t[i as int + 1]));
                return Err(e);
            },
        };
        out.push(v0 * 16 + v1);
        i = i + 2;
    }
    assert(out@ =~= spec_hex_decoded(t));
    Ok(out)
}

/// True for the six ASCII whitespace bytes.
fn is_ascii_ws(c: u8) -> (r: bool)
    ensures
        r == spec_is_ascii_ws(c),
{
    c == 0x20 || (0x09 <= c && c <= 0x0D)
}

// ---------------------------------------------------------------------------
// CompactSize (varint) encoding
// ---------------------------------------------------------------------------

/// The canonical CompactSize encoding of `n`: the shortest of the four forms,
/// selected strictly by value range.
pub open spec fn spec_varint(n: u64) -> Seq<u8> {
    if n <= 0xFC {
        seq![n as u8]
    } else if n <= 0xFFFF {
        seq![0xFDu8] + spec_u16_to_le_bytes(n as u16)
    } else if n <= 0xFFFF_FFFF {
        seq![0xFEu8] + spec_u32_to_le_bytes(n as u32)
    } else {
        seq![0xFFu8] + spec_u64_to_le_bytes(n)
    }
}

/// Reading a CompactSize value from the front of `b`: the decoded value and
/// the number of bytes consumed, or `None` when the buffer is shorter than
/// the marker demands.  Any well-formed form is accepted, minimal or not.
pub open spec fn spec_varint_read(b: Seq<u8>) -> Option<(u64, int)> {
    if b.len() == 0 {
        None
    } else if b[0] <= 0xFC {
        Some((b[0] as u64, 1))
    } else if b[0] == 0xFD {
        if b.len() < 3 {
            None
        } else {
            Some((spec_u16_from_le_bytes(b.subrange(1, 3)) as u64, 3))
        }
    } else if b[0] == 0xFE {
        if b.len() < 5 {
            None
        } else {
            Some((spec_u32_from_le_bytes(b.subrange(1, 5)) as u64, 5))
        }
    } else {
        if b.len() < 9 {
            None
        } else {
            Some((spec_u64_from_le_bytes(b.subrange(1, 9)), 9))
        }
    }
}

/// Decoding recovers exactly the value that the canonical encoder wrote, no
/// matter what follows the encoding in the buffer.
pub proof fn lemma_varint_roundtrip(n: u64, rest: Seq<u8>)
    ensures
        spec_varint_read(spec_varint(n) + rest) == Some((n, spec_varint(n).len() as int)),
{
    let b = spec_varint(n) + rest;
    if n <= 0xFC {
        assert(b[0] == n as u8);
    } else if n <= 0xFFFF {
        lemma_auto_spec_u16_to_from_le_bytes();
        assert(b[0] == 0xFDu8);
        assert(b.subrange(1, 3) =~= spec_u16_to_le_bytes(n as u16));
    } else if n <= 0xFFFF_FFFF {
        lemma_auto_spec_u32_to_from_le_bytes();
        assert(b[0] == 0xFEu8);
        assert(b.subrange(1, 5) =~= spec_u32_to_le_bytes(n as u32));
    } else {
        lemma_auto_spec_u64_to_from_le_bytes();
        assert(b[0] == 0xFFu8);
        assert(b.subrange(1, 9) =~= spec_u64_to_le_bytes(n));
    }
}

/// Reads a CompactSize varint from the front of `data`, returning the value
/// and the number of bytes consumed.
pub fn read_varint(data: &[u8]) -> (r: Result<(u64, usize), SdkError>)
    ensures
        match r {
            Ok(p) => spec_varint_read(data@) == Some((p.0, p.1 as int)),
            Err(e) => spec_varint_read(data@) is None && e matches SdkError::InvalidArgument(_),
        },
{
    if data.len() == 0 {
        return Err(SdkError::InvalidArgument("empty buffer"));
    }
    let first = *vstd::slice::slice_index_get(data, 0);
    if first <= 0xFC {
        Ok((first as u64, 1))
    } else if first == 0xFD {
        if data.len() < 3 {
            return Err(SdkError::InvalidArgument("varint 0xfd needs 2 bytes"));
        }
        let v = u16_from_le_bytes(slice_subrange(data, 1, 3)) as u64;
        Ok((v, 3))
    } else if first == 0xFE {
        if data.len() < 5 {
            return Err(SdkError::InvalidArgument("varint 0xfe needs 4 bytes"));
        }
        let v = u32_from_le_bytes(slice_subrange(data, 1, 5)) as u64;
        Ok((v, 5))
    } else {
        if data.len() < 9 {
            return Err(SdkError::InvalidArgument("varint 0xff needs 8 bytes"));
        }
        let v = u64_from_le_bytes(slice_subrange(data, 1, 9));
        Ok((v, 9))
    }
}

/// Appends the canonical CompactSize encoding of `n` to `out`.
pub fn write_varint(n: u64, out: &mut Vec<u8>)
    ensures
        final(out)@ == old(out)@ + spec_varint(n),
{
    if n <= 0xFC {
        out.push(n as u8);
        assert(out@ =~= old(out)@ + spec_varint(n));
    } else if n <= 0xFFFF {
        out.push(0xFD);
        let bytes = u16_to_le_bytes(n as u16);
        out.extend_from_slice(bytes.as_slice());
        assert(out@ =~= old(out)@ + spec_varint(n));
    } else if n <= 0xFFFF_FFFF {
        out.push(0xFE);
        let bytes = u32_to_le_bytes(n as u32);
        out.extend_from_slice(bytes.as_slice());
        assert(out@ =~= old(out)@ + spec_varint(n));
    } else {
        out.push(0xFF);
        let bytes = u64_to_le_bytes(n);
        out.extend_from_slice(bytes.as_slice());
        assert(out@ =~= old(out)@ + spec_varint(n));
    }
}

// ---------------------------------------------------------------------------
// Base58Check: version byte + payload with 4-byte double-SHA-256 checksum
// ---------------------------------------------------------------------------

/// What `bs58::encode` returns for a byte sequence (default bitcoin
/// alphabet): a pure function of the input bytes.
pub uninterp spec fn b58_of(raw: Seq<u8>) -> Seq<char>;

/// What `bs58::decode` returns for a string (default bitcoin alphabet): the
/// decoded bytes, or `None` for input that is not valid base-58.
pub uninterp spec fn b58_decoded(s: Seq<char>) -> Option<Seq<u8>>;

/// Relies on `bs58::encode` with the default (bitcoin) alphabet.
#[verifier::external_body]
fn b58_encode(raw: &Vec<u8>) -> (r: String)
    ensures
        r@ == b58_of(raw@),
{
    bs58::encode(raw.as_slice()).into_string()
}

/// Relies on `bs58::decode` with the default (bitcoin) alphabet: it fails
/// exactly on input that is not valid base-58.
#[verifier::external_body]
fn b58_decode(s: &str) -> (r: Option<Vec<u8>>)
    ensures
        r is Some <==> b58_decoded(s@) is Some,
        r matches Some(v) ==> b58_decoded(s@) == Some(v@),
{
    bs58::decode(s).into_vec().ok()
}

/// The raw buffer behind a checksummed encoding: version byte, payload, and
/// the first four bytes of the double-SHA-256 of version and payload.
pub open spec fn spec_b58check_raw(version: u8, payload: Seq<u8>) -> Seq<u8> {
    (seq![version] + payload) + spec_sha256d(seq![version] + payload).take(4)
}

/// The last four bytes of `raw` equal the first four checksum bytes of the
/// double-SHA-256 of the rest.
pub open spec fn spec_checksum_ok(raw: Seq<u8>) -> bool
    recommends
        raw.len() >= 4,
{
    raw.skip(raw.len() - 4) == spec_sha256d(raw.take(raw.len() - 4)).take(4)
}

/// A decoded base-58 buffer is accepted when it is long enough for a version
/// byte, a non-empty payload and a checksum, and the checksum matches.
pub open spec fn spec_b58check_ok(d: Option<Seq<u8>>) -> bool {
    match d {
        Some(raw) => raw.len() >= 5 && spec_checksum_ok(raw) && raw.len() != 5,
        None => false,
    }
}

/// Encodes a version byte plus payload as checksummed base-58 text.
pub fn base58check_encode(version: u8, payload: &[u8]) -> (r: String)
    ensures
        r@ == b58_of(spec_b58check_raw(version, payload@)),
{
    let mut raw: Vec<u8> = Vec::new();
    raw.push(version);
    raw.extend_from_slice(payload);
    let ghost vp = raw@;
    assert(vp =~= seq![version] + payload@);
    let checksum = sha256d(raw.as_slice());
    raw.push(checksum[0]);
    raw.push(checksum[1]);
    raw.push(checksum[2]);
    raw.push(checksum[3]);
    assert(raw@ =~= spec_b58check_raw(version, payload@)) by {
        assert(checksum@.take(4) =~= seq![checksum@[0], checksum@[1], checksum@[2], checksum@[3]]);
    }
    b58_encode(&raw)
}

/// Decodes checksummed base-58 text into its version byte and payload.
pub fn base58check_decode(s: &str) -> (r: Result<(u8, Vec<u8>), SdkError>)
    ensures
        r is Ok <==> spec_b58check_ok(b58_decoded(s@)),
        r matches Ok(p) ==> b58_decoded(s@) matches Some(raw) && p.0 == raw[0] && p.1@
            == raw.subrange(1, raw.len() - 4),
        r matches Err(e) ==> e matches SdkError::InvalidArgument(_),
{
    let raw = match b58_decode(s) {
        Some(v) => v,
        None => {
            return Err(SdkError::InvalidArgument("invalid base58"));
        },
    };
    if raw.len() < 5 {
        return Err(SdkError::InvalidArgument("base58check too short"));
    }
    let split = raw.len() - 4;
    let ver_and_payload = slice_subrange(raw.as_slice(), 0, split);
    let check = slice_subrange(raw.as_slice(), split, raw.len());
    let calc = sha256d(ver_and_payload);
    if check[0] != calc[0] || check[1] != calc[1] || check[2] != calc[2] || check[3] != calc[3] {
        proof {
            let want = spec_sha256d(raw@.take(split as int)).take(4);
            assert(raw@.skip(split as int) != want) by {
                if raw@.skip(split as int) == want {
                    assert(raw@.skip(split as int)[0] == want[0]);
                    assert(raw@.skip(split as int)[1] == want[1]);
                    assert(raw@.skip(split as int)[2] == want[2]);
                    assert(raw@.skip(split as int)[3] == want[3]);
                }
            }
        }
        return Err(SdkError::InvalidArgument("bad base58check checksum"));
    }
    assert(spec_checksum_ok(raw@)) by {
        assert(raw@.skip(split as int) =~= spec_sha256d(raw@.take(split as int)).take(4)) by {
            assert(forall|i: int| 0 <= i < 4 ==> raw@.skip(split as int)[i] == check@[i]);
            assert(forall|i: int|
                0 <= i < 4 ==> spec_sha256d(raw@.take(split as int)).take(4)[i] == calc@[i]);
        }
    }
    if split == 1 {
        return Err(SdkError::InvalidArgument("empty payload"));
    }
    let version = raw[0];
    let payload = vstd::slice::slice_to_vec(slice_subrange(raw.as_slice(), 1, split));
    Ok((version, payload))
}

} // verus!
