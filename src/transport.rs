//! The encode/decode pipeline between an encoded payload and the text that
//! carries it: compression, then hexadecimal framing, and back.
use vstd::prelude::*;

use crate::compression::{checked_inflate, compress, decompress, deflated};
use crate::framer::{frame, frame_spec, lemma_frame_round_trip, unframe, unframe_spec};

verus! {

/// The stage of the pipeline that rejected its input.
#[derive(Clone, Copy, Debug, PartialEq, Eq, Structural)]
pub enum PipelineError {
    /// The text is not hexadecimal framing.
    Framing,
    /// The bytes are not a valid compressed stream, or its checksum does not match.
    Compression,
    /// The decompressed bytes do not have the expected structure.
    StructuralDecode,
}

/// The transport text of the payload `p`: its compressed bytes, framed.
pub open spec fn transport_text(p: Seq<u8>) -> Seq<char> {
    frame_spec(deflated(p))
}

/// The payload that the text `t` carries, or the first stage that rejects it.
pub open spec fn transport_payload(t: Seq<char>) -> Result<Seq<u8>, PipelineError> {
    match unframe_spec(t) {
        None => Err(PipelineError::Framing),
        Some(z) => match checked_inflate(z) {
            None => Err(PipelineError::Compression),
            Some(p) => Ok(p),
        },
    }
}

/// Compresses and frames an encoded payload; the text decodes back to it.
pub fn encode_for_transport(payload: &[u8]) -> (r: String)
    ensures
        r@ == transport_text(payload@),
        transport_payload(r@) == Ok::<Seq<u8>, PipelineError>(payload@),
{
    let z = compress(payload);
    let t = frame(z.as_slice());
    proof {
        lemma_frame_round_trip(z@);
    }
    t
}

/// Unframes and decompresses a transport text, naming the stage that failed.
pub fn decode_from_transport(text: &str) -> (r: Result<Vec<u8>, PipelineError>)
    ensures
        match r {
            Ok(p) => transport_payload(text@) == Ok::<Seq<u8>, PipelineError>(p@),
            Err(e) => transport_payload(text@) == Err::<Seq<u8>, PipelineError>(e),
        },
{
    match unframe(text) {
        None => Err(PipelineError::Framing),
        Some(z) => match decompress(z.as_slice()) {
            None => Err(PipelineError::Compression),
            Some(p) => Ok(p),
        },
    }
}

} // verus!
