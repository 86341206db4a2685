//! Event `0x0002`, client side: decoding an error response.

use vstd::prelude::*;
use vstd::string::StringExecFns;
use vstd::utf8::{decode_utf8, valid_utf8};

use crate::bits::bits_to_uint;
use crate::decoder::{bytes_at, BitDecoder, Frame};
use crate::errors::{Error, ErrorKind};
use crate::text::string_from_utf8;

verus! {

/// An error received from the peer: a 16-bit code, a zero separator byte,
/// then the UTF-8 bytes of the message.
#[derive(Debug)]
pub struct ErrorResponse {
    /// The cursor over the received frame, at the start of the payload.
    pub decoder: BitDecoder,
    /// The received error code.
    pub code: u16,
    /// The received error message.
    pub message: String,
}

impl ErrorResponse {
    /// Wraps a cursor positioned at the start of the payload.
    pub fn new(decoder: BitDecoder) -> (r: ErrorResponse)
        ensures
            r.decoder == decoder,
            r.code == 0,
            r.message@ == Seq::<char>::empty(),
    {
        ErrorResponse { decoder, code: 0, message: String::new() }
    }

    /// Reads the code, skips the separator, and reads the rest of the
    /// payload as the message.
    ///
    /// Fails with `SizeConstraintViolation` when the payload is shorter
    /// than its size field says, and with `BadRequest` (code 400) when the
    /// message bytes are not UTF-8.
    pub fn decode(&mut self, frame: &Frame) -> (r: Result<(), Error>)
        ensures
            ({
                let bits = old(self).decoder@;
                let p = old(self).decoder.position as int;
                let cnt = (frame.data_size - 24) as int / 8;
                &&& r is Ok <==> frame.data_size >= 24 && p + 24 + 8 * cnt <= bits.len()
                    && valid_utf8(bytes_at(bits, p + 24, cnt))
                &&& r is Ok ==> final(self).code as nat == bits_to_uint(bits.subrange(p, p + 16))
                    && final(self).message@ == decode_utf8(bytes_at(bits, p + 24, cnt))
                    && final(self).decoder.position == p + 24 + 8 * cnt
                &&& r is Err ==> (r->Err_0.kind is SizeConstraintViolation || (
                r->Err_0.kind is BadRequest && r->Err_0.code == 400))
            }),
    {
        proof {
            crate::bits::lemma_bits_to_uint_bound(
                old(self).decoder@.subrange(
                    old(self).decoder.position as int,
                    old(self).decoder.position + 16,
                ),
            );
            vstd::arithmetic::power2::lemma2_to64();
        }
        let code = match self.decoder.read_data(16) {
            Ok(v) => v as u16,
            Err(e) => {
                return Err(e);
            },
        };
        match self.decoder.read_data(8) {
            Ok(_) => {},
            Err(e) => {
                return Err(e);
            },
        }
        if frame.data_size < 24 {
            return Err(Error {
                code: 0b1000,
                message: String::from_str("Out of bound"),
                kind: ErrorKind::SizeConstraintViolation,
            });
        }
        let cnt = ((frame.data_size - 24) / 8) as usize;
        let bytes = match self.decoder.read_bytes(cnt) {
            Ok(v) => v,
            Err(e) => {
                return Err(e);
            },
        };
        match string_from_utf8(bytes) {
            Some(s) => {
                self.message = s;
                self.code = code;
                Ok(())
            },
            None => Err(Error {
                code: 400,
                message: String::from_str("Invalid UTF-8"),
                kind: ErrorKind::BadRequest,
            }),
        }
    }
}

} // verus!
