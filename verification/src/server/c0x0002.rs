//! Event `0x0002`, server side: the error response.

use vstd::prelude::*;
use vstd::string::StrSliceExecFns;
use vstd::utf8::encode_utf8;

use crate::bits::{bytes_to_bits, field_bits, BitOrder};
use crate::encoder::{max_bits, BitEncoder, EventEncoder};
use crate::errors::Error;

verus! {

/// Carries an error to the peer: a 16-bit code, a zero separator byte,
/// then the UTF-8 bytes of the message.
#[derive(Debug)]
pub struct ErrorResponse {
    /// The payload buffer.
    pub encoder: BitEncoder,
    /// The error being reported.
    pub error: Error,
}

impl ErrorResponse {
    /// Creates the response with an empty `Lsb0` payload buffer.
    pub fn new(error: Error) -> (r: ErrorResponse)
        ensures
            r.encoder@ == Seq::<bool>::empty(),
            r.encoder.order == BitOrder::Lsb0,
            r.error == error,
    {
        ErrorResponse { encoder: BitEncoder::new(BitOrder::Lsb0), error }
    }
}

impl EventEncoder for ErrorResponse {
    open spec fn event_id(&self) -> u16 {
        0x0002
    }

    open spec fn buffer(&self) -> Seq<bool> {
        self.encoder@
    }

    open spec fn encodes_ok(&self) -> bool {
        self.encoder@.len() + 24 + 8 * encode_utf8(self.error.message@).len() <= max_bits()
    }

    open spec fn payload(&self) -> Seq<bool> {
        field_bits(self.error.code as nat, 16) + field_bits(0, 8) + bytes_to_bits(
            encode_utf8(self.error.message@),
        )
    }

    fn get_event(&self) -> (e: u16) {
        0x0002
    }

    fn get_encoder(&self) -> (enc: &BitEncoder) {
        &self.encoder
    }

    fn encode(&mut self) -> (r: Result<(), Error>) {
        match self.encoder.add_data(self.error.code, 16) {
            Ok(_) => {},
            Err(e) => {
                return Err(e);
            },
        }
        match self.encoder.add_data(0, 8) {
            Ok(_) => {},
            Err(e) => {
                return Err(e);
            },
        }
        let bytes = self.error.message.as_str().as_bytes_vec();
        self.encoder.add_bytes(bytes.as_slice())
    }
}

} // verus!
