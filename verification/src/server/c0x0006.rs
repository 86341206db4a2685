//! Event `0x0006`, server side: the interaction response.

use vstd::prelude::*;
use vstd::string::StrSliceExecFns;
use vstd::utf8::encode_utf8;

use crate::bits::{bytes_to_bits, field_bits, BitOrder};
use crate::encoder::{max_bits, BitEncoder, EventEncoder};
use crate::errors::Error;

verus! {

/// The bits of an optional JSON document: its UTF-8 bytes, or nothing.
pub open spec fn response_bits(response: Option<String>) -> Seq<bool> {
    match response {
        Some(s) => bytes_to_bits(encode_utf8(s@)),
        None => Seq::empty(),
    }
}

/// Answers an interaction request: the 64-bit request id split into its
/// upper and lower halves, then the JSON bytes of the response value,
/// omitted entirely when absent.
#[derive(Debug)]
pub struct InteractionResponse {
    /// The payload buffer.
    pub encoder: BitEncoder,
    /// The id of the request being answered.
    pub request_id: u64,
    /// The JSON text of the response value, if there is one.
    pub response: Option<String>,
}

impl InteractionResponse {
    /// Creates the response with an empty `Lsb0` payload buffer.
    pub fn new(request_id: u64, response: Option<String>) -> (r: InteractionResponse)
        ensures
            r.encoder@ == Seq::<bool>::empty(),
            r.encoder.order == BitOrder::Lsb0,
            r.request_id == request_id,
            r.response == response,
    {
        InteractionResponse { encoder: BitEncoder::new(BitOrder::Lsb0), request_id, response }
    }
}

impl EventEncoder for InteractionResponse {
    open spec fn event_id(&self) -> u16 {
        0x0006
    }

    open spec fn buffer(&self) -> Seq<bool> {
        self.encoder@
    }

    open spec fn encodes_ok(&self) -> bool {
        self.encoder@.len() + 64 + response_bits(self.response).len() <= max_bits()
    }

    open spec fn payload(&self) -> Seq<bool> {
        field_bits(self.request_id as nat / 0x1_0000_0000, 32) + field_bits(
            self.request_id as nat % 0x1_0000_0000,
            32,
        ) + response_bits(self.response)
    }

    fn get_event(&self) -> (e: u16) {
        0x0006
    }

    fn get_encoder(&self) -> (enc: &BitEncoder) {
        &self.encoder
    }

    fn encode(&mut self) -> (r: Result<(), Error>) {
        let upper_request_id = (self.request_id >> 32u64) as u32;
        let lower_request_id = (self.request_id & 0xFFFFFFFFu64) as u32;
        proof {
            vstd::bits::lemma_u64_shr_is_div(self.request_id, 32);
            vstd::bits::lemma_u64_low_bits_mask_is_mod(self.request_id, 32);
            vstd::bits::lemma_low_bits_mask_values();
            vstd::arithmetic::power2::lemma2_to64();
            if self.response is Some {
                crate::encoder::lemma_bytes_to_bits_len(
                    encode_utf8(self.response->Some_0@),
                );
            }
        }
        match self.encoder.add_data(upper_request_id, 32) {
            Ok(_) => {},
            Err(e) => {
                return Err(e);
            },
        }
        match self.encoder.add_data(lower_request_id, 32) {
            Ok(_) => {},
            Err(e) => {
                return Err(e);
            },
        }
        match &self.response {
            Some(response) => {
                let bytes = response.as_str().as_bytes_vec();
                self.encoder.add_bytes(bytes.as_slice())
            },
            None => Ok(()),
        }
    }
}

} // verus!
