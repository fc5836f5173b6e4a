//! The compression stage: a zlib stream written at yazi's best-size level,
//! read back with its Adler-32 checksum checked.
use vstd::prelude::*;

verus! {

#[verifier::external_type_specification]
#[verifier::external_body]
pub struct ExYaziError(yazi::Error);

/// The zlib stream that yazi writes for `b` at its best-size level.
pub uninterp spec fn deflated(b: Seq<u8>) -> Seq<u8>;

/// What yazi reads back from the zlib stream `z`: the bytes and the checksum
/// found in the stream's trailer, or `None` where it finds the stream corrupt
/// or cut short.
pub uninterp spec fn inflated(z: Seq<u8>) -> Option<(Seq<u8>, Option<u32>)>;

/// The running sum of the Adler-32 checksum of `b`.
pub open spec fn adler_a(b: Seq<u8>) -> nat
    decreases b.len(),
{
    if b.len() == 0 {
        1
    } else {
        ((adler_a(b.drop_last()) + b.last()) % 65521) as nat
    }
}

/// The sum of running sums of the Adler-32 checksum of `b`.
pub open spec fn adler_b(b: Seq<u8>) -> nat
    decreases b.len(),
{
    if b.len() == 0 {
        0
    } else {
        ((adler_b(b.drop_last()) + adler_a(b)) % 65521) as nat
    }
}

/// The Adler-32 checksum of `b`, as a zlib stream carries it.
pub open spec fn adler32(b: Seq<u8>) -> u32 {
    (adler_b(b) * 65536 + adler_a(b)) as u32
}

/// The bytes a zlib stream decompresses to, where its checksum matches them.
pub open spec fn checked_inflate(z: Seq<u8>) -> Option<Seq<u8>> {
    match inflated(z) {
        Some((b, Some(c))) => if c == adler32(b) {
            Some(b)
        } else {
            None
        },
        _ => None,
    }
}

/// Relies on `yazi::compress` with `Format::Zlib` and `CompressionLevel::BestSize`:
/// into a vector its sink never reports an error; the output depends on the
/// input alone; deflate is lossless, and the zlib trailer holds the Adler-32
/// checksum of the input.
#[verifier::external_body]
fn zlib_compress(b: &[u8]) -> (r: Result<Vec<u8>, yazi::Error>)
    ensures
        r is Ok,
        r matches Ok(z) ==> z@ == deflated(b@),
        r matches Ok(z) ==> inflated(z@) == Some((b@, Some(adler32(b@)))),
{
    yazi::compress(b, yazi::Format::Zlib, yazi::CompressionLevel::BestSize)
}

/// Relies on `yazi::decompress` with `Format::Zlib`: the outcome depends on the
/// input alone. It hands back the checksum of the trailer without checking it.
#[verifier::external_body]
fn zlib_decompress(z: &[u8]) -> (r: Result<(Vec<u8>, Option<u32>), yazi::Error>)
    ensures
        r is Ok <==> inflated(z@) is Some,
        r matches Ok(p) ==> inflated(z@) == Some((p.0@, p.1)),
{
    yazi::decompress(z, yazi::Format::Zlib)
}

/// The Adler-32 checksum of `b`.
pub fn adler32_of(b: &[u8]) -> (r: u32)
    ensures
        r == adler32(b@),
{
    let mut a: u32 = 1;
    let mut s: u32 = 0;
    let mut i: usize = 0;
    while i < b.len()
        invariant
            i <= b@.len(),
            a as nat == adler_a(b@.subrange(0, i as int)),
            s as nat == adler_b(b@.subrange(0, i as int)),
            a < 65521,
            s < 65521,
        decreases b@.len() - i,
    {
        proof {
            assert(b@.subrange(0, i + 1).drop_last() =~= b@.subrange(0, i as int));
        }
        a = (a + b[i] as u32) % 65521;
        s = (s + a) % 65521;
        i += 1;
    }
    assert(b@.subrange(0, b@.len() as int) =~= b@);
    assert(s * 65536 + a < 0x1_0000_0000) by (nonlinear_arith)
        requires
            s < 65521,
            a < 65521,
    ;
    s * 65536 + a
}

/// Compresses `b`; what comes out decompresses to `b` again.
pub fn compress(b: &[u8]) -> (r: Vec<u8>)
    ensures
        r@ == deflated(b@),
        checked_inflate(r@) == Some(b@),
{
    match zlib_compress(b) {
        Ok(z) => z,
        Err(_) => {
            assert(false);
            Vec::new()
        },
    }
}

/// Decompresses a zlib stream; `None` when the stream is corrupt, cut short,
/// or its checksum does not match what it decompresses to.
pub fn decompress(z: &[u8]) -> (r: Option<Vec<u8>>)
    ensures
        r is Some <==> checked_inflate(z@) is Some,
        r matches Some(b) ==> checked_inflate(z@) == Some(b@),
{
    match zlib_decompress(z) {
        Ok((b, Some(c))) => {
            if c == adler32_of(b.as_slice()) {
                Some(b)
            } else {
                None
            }
        },
        _ => None,
    }
}

} // verus!
