//! Event `0x0006`, client side: decoding an interaction response.

use vstd::prelude::*;
use vstd::string::{StringExecFns};
use vstd::utf8::{decode_utf8, valid_utf8};

use crate::bits::bits_to_uint;
use crate::decoder::{bytes_at, BitDecoder, Frame};
use crate::errors::{Error, ErrorKind};
use crate::json::{json_accepts, json_parses};
use crate::text::string_from_utf8;

verus! {

/// A received interaction answer: the 64-bit request id, then the JSON
/// text of the response value; a text that is not JSON reads as `null`.
#[derive(Debug)]
pub struct InteractionResponse {
    /// The cursor over the received frame, at the start of the payload.
    pub decoder: BitDecoder,
    /// The id of the request this answers.
    pub request_id: u64,
    /// The received JSON text.
    pub response: Option<String>,
}

impl InteractionResponse {
    /// Wraps a cursor positioned at the start of the payload.
    pub fn new(decoder: BitDecoder) -> (r: InteractionResponse)
        ensures
            r.decoder == decoder,
            r.request_id == 0,
            r.response is None,
    {
        InteractionResponse { decoder, request_id: 0, response: None }
    }

    /// Reads the request id and the remaining whole bytes as a JSON text;
    /// a parse failure yields the JSON `null` document.
    ///
    /// Fails with `SizeConstraintViolation` when the payload is shorter
    /// than its size field says, and with `BadRequest` (code 400) when the
    /// bytes are not UTF-8.
    pub fn decode(&mut self, frame: &Frame) -> (r: Result<(), Error>)
        ensures
            ({
                let bits = old(self).decoder@;
                let p = old(self).decoder.position as int;
                let cnt = (frame.data_size - 64) as int / 8;
                let text = decode_utf8(bytes_at(bits, p + 64, cnt));
                &&& r is Ok <==> frame.data_size >= 64 && p + 64 + 8 * cnt <= bits.len()
                    && valid_utf8(bytes_at(bits, p + 64, cnt))
                &&& r is Ok ==> ({
                    &&& final(self).request_id as nat == bits_to_uint(
                        bits.subrange(p, p + 32),
                    ) * 0x1_0000_0000 + bits_to_uint(bits.subrange(p + 32, p + 64))
                    &&& final(self).response is Some
                    &&& final(self).response->Some_0@ == (if json_accepts(text) {
                        text
                    } else {
                        "null"@
                    })
                })
                &&& r is Err ==> (r->Err_0.kind is SizeConstraintViolation || (
                r->Err_0.kind is BadRequest && r->Err_0.code == 400))
            }),
    {
        proof {
            crate::bits::lemma_bits_to_uint_bound(
                old(self).decoder@.subrange(
                    old(self).decoder.position as int,
                    old(self).decoder.position + 32,
                ),
            );
            crate::bits::lemma_bits_to_uint_bound(
                old(self).decoder@.subrange(
                    old(self).decoder.position + 32,
                    old(self).decoder.position + 64,
                ),
            );
            vstd::arithmetic::power2::lemma2_to64();
        }
        let upper_id = match self.decoder.read_data(32) {
            Ok(v) => v,
            Err(e) => {
                return Err(e);
            },
        };
        let lower_id = match self.decoder.read_data(32) {
            Ok(v) => v,
            Err(e) => {
                return Err(e);
            },
        };
        self.request_id = (upper_id as u64) * 0x1_0000_0000u64 + (lower_id as u64);
        if frame.data_size < 64 {
            return Err(Error {
                code: 0b1000,
                message: String::from_str("Out of bound"),
                kind: ErrorKind::SizeConstraintViolation,
            });
        }
        let cnt = ((frame.data_size - 64) / 8) as usize;
        let bytes = match self.decoder.read_bytes(cnt) {
            Ok(v) => v,
            Err(e) => {
                return Err(e);
            },
        };
        let text = match string_from_utf8(bytes) {
            Some(s) => s,
            None => {
                return Err(Error {
                    code: 400,
                    message: String::from_str("Invalid UTF-8"),
                    kind: ErrorKind::BadRequest,
                });
            },
        };
        if json_parses(text.as_str()) {
            self.response = Some(text);
        } else {
            self.response = Some(String::from_str("null"));
        }
        Ok(())
    }
}

} // verus!
