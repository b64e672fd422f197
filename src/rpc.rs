use vstd::prelude::*;

use crate::engine::{decode_allows, decode_from_memory};
use crate::image::{DecodeResult, OutcomeModel};
use crate::wire::{
    decode_outcome, encode_outcome, frame, framed, lemma_frame_round_trip,
    lemma_outcome_round_trip, outcome_payload, outcome_valid, parse_outcome, unframe,
};

verus! {

/// A failure of the channel itself: no answer was obtained.
#[derive(Clone, Copy, PartialEq, Eq, Debug)]
pub enum ChannelError {
    /// The other end closed the channel.
    Closed,
    /// The bytes read do not form a valid message.
    BadFrame,
}

/// The message that asks for `compressed` to be decoded; `None` where it is
/// too long to frame.
pub fn encode_request(compressed: &[u8]) -> (r: Option<Vec<u8>>)
    ensures
        r is Some <==> compressed@.len() <= u32::MAX,
        r matches Some(v) ==> v@ == framed(compressed@),
{
    frame(compressed)
}

/// The message that answers with `o`; `None` where its body is too long to frame.
pub fn encode_response(o: &DecodeResult) -> (r: Option<Vec<u8>>)
    ensures
        r is Some <==> outcome_payload(o@).len() <= u32::MAX,
        r matches Some(v) ==> v@ == framed(outcome_payload(o@)),
{
    let body = encode_outcome(o);
    frame(body.as_slice())
}

/// The answer a client reads from a response body: the outcome it carries,
/// or a channel fault where the body carries none.
pub fn read_response(body: &[u8]) -> (r: Result<DecodeResult, ChannelError>)
    ensures
        match r {
            Ok(o) => parse_outcome(body@) == Some(o@),
            Err(e) => e == ChannelError::BadFrame && parse_outcome(body@) is None,
        },
{
    match decode_outcome(body) {
        Some(o) => Ok(o),
        None => Err(ChannelError::BadFrame),
    }
}

/// The server's answer to one request body: the framed outcome of decoding
/// it in this process; `None` where that outcome is too long to frame.
pub fn serve_request(compressed: &[u8]) -> (r: Option<Vec<u8>>)
    ensures
        exists|o: OutcomeModel|
            decode_allows(compressed@, o) && match r {
                Some(v) => v@ == framed(outcome_payload(o)),
                None => outcome_payload(o).len() > u32::MAX,
            },
{
    let o = decode_from_memory(compressed);
    encode_response(&o)
}

/// Whatever outcome the local decoder may give for an input, the sandboxed
/// path (the server decodes in its own process and frames the outcome, the
/// client unframes and reads it) hands the caller exactly that outcome.
pub proof fn lemma_sandboxed_matches_local(compressed: Seq<u8>, o: OutcomeModel, rest: Seq<u8>)
    requires
        decode_allows(compressed, o),
        outcome_payload(o).len() <= u32::MAX,
    ensures
        unframe(framed(outcome_payload(o)) + rest) matches Some((body, _)) && parse_outcome(body)
            == Some(o),
{
    lemma_frame_round_trip(outcome_payload(o), rest);
    lemma_outcome_round_trip(o);
}

} // verus!
