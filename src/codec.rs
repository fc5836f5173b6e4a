//! The binary layout of a store's entries, written and read with postcard.
use vstd::prelude::*;

use crate::transport::PipelineError;

verus! {

#[verifier::external_type_specification]
#[verifier::external_body]
pub struct ExPostcardError(postcard::Error);

/// The unsigned LEB128 varint that postcard writes for `n`: seven bits per
/// byte, lowest first, the high bit set on every byte but the last.
pub open spec fn varint(n: nat) -> Seq<u8>
    decreases n,
{
    if n < 128 {
        seq![n as u8]
    } else {
        seq![(n % 128 + 128) as u8] + varint(n / 128)
    }
}

/// One entry as postcard writes it: its kind as a varint, then its payload's
/// length as a varint and the payload's bytes.
pub open spec fn entry_bytes(e: (u64, Seq<u8>)) -> Seq<u8> {
    varint(e.0 as nat) + varint(e.1.len()) + e.1
}

/// The entries of `e` written one after another.
pub open spec fn entries_body(e: Seq<(u64, Seq<u8>)>) -> Seq<u8>
    decreases e.len(),
{
    if e.len() == 0 {
        Seq::empty()
    } else {
        entries_body(e.drop_last()) + entry_bytes(e.last())
    }
}

/// The bytes that postcard writes for a list of `(kind, payload)` entries: the
/// count as a varint, then the entries.
pub open spec fn entries_encoding(e: Seq<(u64, Seq<u8>)>) -> Seq<u8> {
    varint(e.len()) + entries_body(e)
}

/// The list of `(kind, payload)` entries that postcard reads from the front of
/// `b`, or `None` where the bytes do not hold one.
pub uninterp spec fn entries_decoding(b: Seq<u8>) -> Option<Seq<(u64, Seq<u8>)>>;

/// Relies on `postcard::to_allocvec` for a `Vec<(u64, Vec<u8>)>`: its output
/// vector only grows and every length is known, so it returns no error; a
/// sequence is its length as a varint and then its items, a tuple its fields in
/// order, a `u64` a varint and a `u8` one byte; what it writes reads back with
/// `postcard::from_bytes` as the same value.
#[verifier::external_body]
fn postcard_encode(e: &Vec<(u64, Vec<u8>)>) -> (r: Result<Vec<u8>, postcard::Error>)
    ensures
        r is Ok,
        r matches Ok(b) ==> b@ == entries_encoding(e.deep_view()),
        r matches Ok(b) ==> entries_decoding(b@) == Some(e.deep_view()),
{
    postcard::to_allocvec(e)
}

/// Relies on `postcard::from_bytes` for a `Vec<(u64, Vec<u8>)>`: the outcome
/// depends on the bytes alone.
#[verifier::external_body]
fn postcard_decode(b: &[u8]) -> (r: Result<Vec<(u64, Vec<u8>)>, postcard::Error>)
    ensures
        r is Ok <==> entries_decoding(b@) is Some,
        r matches Ok(e) ==> entries_decoding(b@) == Some(e.deep_view()),
{
    postcard::from_bytes(b)
}

/// Writes a list of entries as bytes; they read back as the same list.
pub fn encode_entries(e: &Vec<(u64, Vec<u8>)>) -> (r: Vec<u8>)
    ensures
        r@ == entries_encoding(e.deep_view()),
        entries_decoding(r@) == Some(e.deep_view()),
{
    match postcard_encode(e) {
        Ok(b) => b,
        Err(_) => {
            assert(false);
            Vec::new()
        },
    }
}

/// Reads a list of entries from bytes, failing when the layout does not match.
pub fn decode_entries(b: &[u8]) -> (r: Result<Vec<(u64, Vec<u8>)>, PipelineError>)
    ensures
        match r {
            Ok(e) => entries_decoding(b@) == Some(e.deep_view()),
            Err(err) => entries_decoding(b@) is None && err == PipelineError::StructuralDecode,
        },
{
    match postcard_decode(b) {
        Ok(e) => Ok(e),
        Err(_) => Err(PipelineError::StructuralDecode),
    }
}

} // verus!
