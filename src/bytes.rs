//! The byte source that generation draws from, read through the `arbitrary`
//! crate. A stream is the sequence of bytes not consumed yet.
use vstd::prelude::*;

verus! {

/// The value of `b` read as a little-endian unsigned integer.
pub open spec fn le_value(b: Seq<u8>) -> nat
    decreases b.len(),
{
    if b.len() == 0 {
        0
    } else {
        b[0] as nat + 256 * le_value(b.skip(1))
    }
}

/// How many of `len` available bytes a read of `width` bytes consumes.
pub open spec fn consumed(len: nat, width: nat) -> nat {
    if len < width {
        len
    } else {
        width
    }
}

/// The two's complement reading of a 64-bit pattern.
pub open spec fn signed64(v: nat) -> int {
    if v < 0x8000_0000_0000_0000 {
        v as int
    } else {
        v - 0x1_0000_0000_0000_0000
    }
}

/// What `String::arbitrary` of the `arbitrary` crate yields from a buffer:
/// the string and the bytes left unconsumed.
pub uninterp spec fn arbitrary_string(bytes: Seq<u8>) -> (Seq<char>, Seq<u8>);

/// What `Unstructured::int_in_range(lo..=hi)` yields from a buffer: the
/// integer and the bytes left unconsumed.
pub uninterp spec fn arbitrary_in_range(bytes: Seq<u8>, lo: usize, hi: usize) -> (usize, Seq<u8>);

/// Relies on `u64::arbitrary`: the first eight bytes (zero-padded when fewer
/// remain) read little-endian, and those bytes consumed.
#[verifier::external_body]
pub(crate) fn draw_u64(data: &Vec<u8>) -> (r: (u64, Vec<u8>))
    ensures
        r.0 as nat == le_value(data@.take(consumed(data@.len(), 8) as int)),
        r.1@ == data@.skip(consumed(data@.len(), 8) as int),
{
    let mut u = arbitrary::Unstructured::new(data.as_slice());
    let v = <u64 as arbitrary::Arbitrary>::arbitrary(&mut u).unwrap_or_default();
    (v, u.take_rest().to_vec())
}

/// Relies on `i64::arbitrary`: the first eight bytes (zero-padded when fewer
/// remain) read as a little-endian two's complement integer, and those bytes
/// consumed.
#[verifier::external_body]
pub(crate) fn draw_i64(data: &Vec<u8>) -> (r: (i64, Vec<u8>))
    ensures
        r.0 as int == signed64(le_value(data@.take(consumed(data@.len(), 8) as int))),
        r.1@ == data@.skip(consumed(data@.len(), 8) as int),
{
    let mut u = arbitrary::Unstructured::new(data.as_slice());
    let v = <i64 as arbitrary::Arbitrary>::arbitrary(&mut u).unwrap_or_default();
    (v, u.take_rest().to_vec())
}

/// Relies on `bool::arbitrary`: the low bit of the first byte (false when no
/// byte remains), and that byte consumed.
#[verifier::external_body]
pub(crate) fn draw_bool(data: &Vec<u8>) -> (r: (bool, Vec<u8>))
    ensures
        r.0 == (data@.len() > 0 && data@[0] % 2 == 1),
        r.1@ == data@.skip(consumed(data@.len(), 1) as int),
{
    let mut u = arbitrary::Unstructured::new(data.as_slice());
    let v = <bool as arbitrary::Arbitrary>::arbitrary(&mut u).unwrap_or_default();
    (v, u.take_rest().to_vec())
}

/// Relies on `String::arbitrary`: a string decided by the buffer alone, which
/// never grows the buffer.
#[verifier::external_body]
pub(crate) fn draw_string(data: &Vec<u8>) -> (r: (String, Vec<u8>))
    ensures
        (r.0@, r.1@) == arbitrary_string(data@),
        r.1@.len() <= data@.len(),
{
    let mut u = arbitrary::Unstructured::new(data.as_slice());
    let v = <String as arbitrary::Arbitrary>::arbitrary(&mut u).unwrap_or_default();
    (v, u.take_rest().to_vec())
}

/// Relies on `Unstructured::int_in_range`: an integer within `lo..=hi`, which
/// never grows the buffer. It panics on an empty range, hence `lo <= hi`.
#[verifier::external_body]
pub(crate) fn draw_in_range(data: &Vec<u8>, lo: usize, hi: usize) -> (r: (usize, Vec<u8>))
    requires
        lo <= hi,
    ensures
        (r.0, r.1@) == arbitrary_in_range(data@, lo, hi),
        lo <= r.0 <= hi,
        r.1@.len() <= data@.len(),
{
    let mut u = arbitrary::Unstructured::new(data.as_slice());
    let v = u.int_in_range(lo..=hi).unwrap_or(lo);
    (v, u.take_rest().to_vec())
}

/// Whether `b` is an ASCII letter or digit.
pub open spec fn is_alphanumeric(b: u8) -> bool {
    (0x30 <= b <= 0x39) || (0x41 <= b <= 0x5a) || (0x61 <= b <= 0x7a)
}

/// Relies on `rand::thread_rng` sampled with `rand::distributions::Alphanumeric`:
/// `n` bytes, each an ASCII letter or digit, drawn at random.
#[verifier::external_body]
fn random_alphanumeric(n: usize) -> (r: Vec<u8>)
    ensures
        r@.len() == n,
        forall|i: int| 0 <= i < r@.len() ==> is_alphanumeric(#[trigger] r@[i]),
{
    rand::Rng::sample_iter(rand::thread_rng(), &rand::distributions::Alphanumeric)
        .take(n)
        .collect()
}

/// The number of random bytes that back one payload.
pub const FUZZ_INPUT_LEN: usize = 1024;

/// A fresh random input for one payload: `FUZZ_INPUT_LEN` ASCII letters and
/// digits. Each call draws anew, so no two payloads share a source.
pub fn fresh_fuzz_input() -> (r: Vec<u8>)
    ensures
        r@.len() == FUZZ_INPUT_LEN,
        forall|i: int| 0 <= i < r@.len() ==> is_alphanumeric(#[trigger] r@[i]),
{
    random_alphanumeric(FUZZ_INPUT_LEN)
}

} // verus!
