//! Base64 payloads exchanged with the frontend and the remote shell.

use vstd::prelude::*;
use crate::text::{owned, push_str};
use base64::Engine;

verus! {

/// A base64 digit of the standard alphabet: `A-Z`, `a-z`, `0-9`, `+`, `/`.
pub open spec fn b64_digit(v: int) -> char {
    if v < 26 {
        (65 + v) as char
    } else if v < 52 {
        (97 + v - 26) as char
    } else if v < 62 {
        (48 + v - 52) as char
    } else if v == 62 {
        '+'
    } else {
        '/'
    }
}

/// Standard base64 with padding (RFC 4648): each group of three bytes
/// becomes four digits of six bits each; a last group of one or two bytes
/// is filled with zero bits and padded with `=` to four characters.
pub open spec fn b64_encoded(bytes: Seq<u8>) -> Seq<char>
    decreases bytes.len(),
{
    if bytes.len() == 0 {
        seq![]
    } else if bytes.len() == 1 {
        let a = bytes[0] as int;
        seq![b64_digit(a / 4), b64_digit((a % 4) * 16), '=', '=']
    } else if bytes.len() == 2 {
        let a = bytes[0] as int;
        let b = bytes[1] as int;
        seq![b64_digit(a / 4), b64_digit((a % 4) * 16 + b / 16), b64_digit((b % 16) * 4), '=']
    } else {
        let a = bytes[0] as int;
        let b = bytes[1] as int;
        let c = bytes[2] as int;
        seq![b64_digit(a / 4), b64_digit((a % 4) * 16 + b / 16), b64_digit((b % 16) * 4 + c / 64), b64_digit(c % 64)]
            + b64_encoded(bytes.skip(3))
    }
}

/// What the standard base64 engine's `decode` gives for a text: the bytes,
/// or the `Display` text of its `DecodeError`.
pub uninterp spec fn b64_decoded(text: Seq<char>) -> Result<Seq<u8>, Seq<char>>;

/// Encodes bytes with `base64::engine::general_purpose::STANDARD`, which
/// writes standard padded base64 ([`b64_encoded`]).
#[verifier::external_body]
pub(crate) fn b64_encode(bytes: &[u8]) -> (r: String)
    ensures
        r@ == b64_encoded(bytes@),
{
    base64::engine::general_purpose::STANDARD.encode(bytes)
}

/// Decodes the bytes of a text with `base64::engine::general_purpose::STANDARD`,
/// rendering a `DecodeError` with its `Display`; the outcome is named, and
/// of it only this is stated: what the engine's `encode` wrote decodes to
/// the bytes it was written from.
#[verifier::external_body]
fn b64_decode(text: &str) -> (r: Result<Vec<u8>, String>)
    ensures
        match r {
            Ok(v) => b64_decoded(text@) == Ok::<Seq<u8>, Seq<char>>(v@),
            Err(e) => b64_decoded(text@) == Err::<Seq<u8>, Seq<char>>(e@),
        },
        r is Ok || forall|x: Seq<u8>| text@ != b64_encoded(x),
        r matches Ok(v) ==> forall|x: Seq<u8>| text@ == b64_encoded(x) ==> v@ == x,
{
    match base64::engine::general_purpose::STANDARD.decode(text.as_bytes()) {
        Ok(v) => Ok(v),
        Err(e) => Err(e.to_string()),
    }
}

/// The payload bytes, or the error shown for a payload that is not base64.
pub open spec fn spec_decode_payload(text: Seq<char>) -> Result<Seq<u8>, Seq<char>> {
    match b64_decoded(text) {
        Ok(b) => Ok(b),
        Err(e) => Err("bad base64: "@ + e),
    }
}

/// Decodes a base64 payload from the frontend. A payload that is the
/// encoding of some bytes gives exactly those bytes back.
pub fn decode_payload(text: &str) -> (r: Result<Vec<u8>, String>)
    ensures
        match r {
            Ok(v) => spec_decode_payload(text@) == Ok::<Seq<u8>, Seq<char>>(v@),
            Err(e) => spec_decode_payload(text@) == Err::<Seq<u8>, Seq<char>>(e@),
        },
        forall|x: Seq<u8>| text@ == b64_encoded(x) ==> (r matches Ok(v) && v@ == x),
{
    match b64_decode(text) {
        Ok(v) => Ok(v),
        Err(e) => {
            let mut msg = owned("bad base64: ");
            push_str(&mut msg, e.as_str());
            Err(msg)
        },
    }
}

/// The base64 text of a chunk of terminal output for the frontend.
pub fn encode_output(bytes: &[u8]) -> (r: String)
    ensures
        r@ == b64_encoded(bytes@),
{
    b64_encode(bytes)
}

} // verus!
