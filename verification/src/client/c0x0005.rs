//! Event `0x0005`, client side: the interaction request.

use vstd::prelude::*;
use vstd::string::StrSliceExecFns;
use vstd::utf8::encode_utf8;

use crate::bits::{bytes_to_bits, field_bits, BitOrder};
use crate::encoder::{max_bits, BitEncoder, EventEncoder};
use crate::errors::Error;
use crate::text::dec_digits_signed;

verus! {

/// The UTF-8 bytes of an optional text field, empty when absent.
pub open spec fn opt_text_bytes(o: Option<String>) -> Seq<u8> {
    match o {
        Some(s) => encode_utf8(s@),
        None => Seq::empty(),
    }
}

/// The decimal ASCII bytes of an optional object id, empty when absent.
pub open spec fn object_id_bytes(o: Option<i32>) -> Seq<u8> {
    match o {
        Some(v) => encode_utf8(dec_digits_signed(v as int)),
        None => Seq::empty(),
    }
}

/// Calls a function on the server: a 64-bit request id, then the function
/// name, parent name, optional token, optional decimal object id and
/// optional JSON parameter document, each field closed by a zero byte but
/// the last.
#[derive(Debug)]
pub struct InteractionRequest {
    /// The payload buffer.
    pub encoder: BitEncoder,
    /// The unique request id.
    pub request_id: u64,
    /// The name of the function to call.
    pub function_name: String,
    /// The name of the object collection the function belongs to.
    pub parent_name: String,
    /// The id of the object to interact with.
    pub object_id: Option<i32>,
    /// The JSON text of the parameters, if any.
    pub params: Option<String>,
    /// The token that authenticates the request.
    pub token: Option<String>,
}

impl InteractionRequest {
    /// Creates the request with an empty `Lsb0` payload buffer.
    pub fn new(
        request_id: u64,
        function_name: String,
        parent_name: String,
        object_id: Option<i32>,
        params: Option<String>,
        token: Option<String>,
    ) -> (r: InteractionRequest)
        ensures
            r.encoder@ == Seq::<bool>::empty(),
            r.encoder.order == BitOrder::Lsb0,
            r.request_id == request_id,
            r.function_name == function_name,
            r.parent_name == parent_name,
            r.object_id == object_id,
            r.params == params,
            r.token == token,
    {
        InteractionRequest {
            encoder: BitEncoder::new(BitOrder::Lsb0),
            request_id,
            function_name,
            parent_name,
            object_id,
            params,
            token,
        }
    }
}

impl EventEncoder for InteractionRequest {
    open spec fn event_id(&self) -> u16 {
        0x0005
    }

    open spec fn buffer(&self) -> Seq<bool> {
        self.encoder@
    }

    open spec fn encodes_ok(&self) -> bool {
        self.encoder@.len() + self.payload().len() <= max_bits()
    }

    open spec fn payload(&self) -> Seq<bool> {
        field_bits(self.request_id as nat / 0x1_0000_0000, 32) + field_bits(
            self.request_id as nat % 0x1_0000_0000,
            32,
        ) + bytes_to_bits(encode_utf8(self.function_name@)) + field_bits(0, 8) + bytes_to_bits(
            encode_utf8(self.parent_name@),
        ) + field_bits(0, 8) + bytes_to_bits(opt_text_bytes(self.token)) + field_bits(0, 8)
            + bytes_to_bits(object_id_bytes(self.object_id)) + field_bits(0, 8) + bytes_to_bits(
            opt_text_bytes(self.params),
        )
    }

    fn get_event(&self) -> (e: u16) {
        0x0005
    }

    fn get_encoder(&self) -> (enc: &BitEncoder) {
        &self.encoder
    }

    fn encode(&mut self) -> (r: Result<(), Error>) {
        let upper_id = (self.request_id >> 32u64) as u32;
        let lower_id = (self.request_id & 0xFFFFFFFFu64) as u32;
        proof {
            vstd::bits::lemma_u64_shr_is_div(self.request_id, 32);
            vstd::bits::lemma_u64_low_bits_mask_is_mod(self.request_id, 32);
            vstd::bits::lemma_low_bits_mask_values();
            vstd::arithmetic::power2::lemma2_to64();
            crate::encoder::lemma_bytes_to_bits_len(encode_utf8(self.function_name@));
            crate::encoder::lemma_bytes_to_bits_len(encode_utf8(self.parent_name@));
            crate::encoder::lemma_bytes_to_bits_len(opt_text_bytes(self.token));
            crate::encoder::lemma_bytes_to_bits_len(object_id_bytes(self.object_id));
            crate::encoder::lemma_bytes_to_bits_len(opt_text_bytes(self.params));
        }
        match self.encoder.add_data(upper_id, 32) {
            Ok(_) => {},
            Err(e) => {
                return Err(e);
            },
        }
        match self.encoder.add_data(lower_id, 32) {
            Ok(_) => {},
            Err(e) => {
                return Err(e);
            },
        }
        let fbytes = self.function_name.as_str().as_bytes_vec();
        match self.encoder.add_bytes(fbytes.as_slice()) {
            Ok(_) => {},
            Err(e) => {
                return Err(e);
            },
        }
        match self.encoder.add_data(0, 8) {
            Ok(_) => {},
            Err(e) => {
                return Err(e);
            },
        }
        let pbytes = self.parent_name.as_str().as_bytes_vec();
        match self.encoder.add_bytes(pbytes.as_slice()) {
            Ok(_) => {},
            Err(e) => {
                return Err(e);
            },
        }
        match self.encoder.add_data(0, 8) {
            Ok(_) => {},
            Err(e) => {
                return Err(e);
            },
        }
        match &self.token {
            Some(token) => {
                let tbytes = token.as_str().as_bytes_vec();
                match self.encoder.add_bytes(tbytes.as_slice()) {
                    Ok(_) => {},
                    Err(e) => {
                        return Err(e);
                    },
                }
            },
            None => {},
        }
        match self.encoder.add_data(0, 8) {
            Ok(_) => {},
            Err(e) => {
                return Err(e);
            },
        }
        match &self.object_id {
            Some(object_id) => {
                let text = crate::text::i32_to_string(*object_id);
                let obytes = text.as_str().as_bytes_vec();
                match self.encoder.add_bytes(obytes.as_slice()) {
                    Ok(_) => {},
                    Err(e) => {
                        return Err(e);
                    },
                }
            },
            None => {},
        }
        match self.encoder.add_data(0, 8) {
            Ok(_) => {},
            Err(e) => {
                return Err(e);
            },
        }
        match &self.params {
            Some(params) => {
                let jbytes = params.as_str().as_bytes_vec();
                match self.encoder.add_bytes(jbytes.as_slice()) {
                    Ok(_) => {},
                    Err(e) => {
                        return Err(e);
                    },
                }
            },
            None => {},
        }
        proof {
            assert(bytes_to_bits(opt_text_bytes(self.token)) =~= (match self.token {
                Some(t) => bytes_to_bits(encode_utf8(t@)),
                None => Seq::<bool>::empty(),
            }));
            assert(bytes_to_bits(object_id_bytes(self.object_id)) =~= (match self.object_id {
                Some(v) => bytes_to_bits(encode_utf8(dec_digits_signed(v as int))),
                None => Seq::<bool>::empty(),
            }));
            assert(bytes_to_bits(opt_text_bytes(self.params)) =~= (match self.params {
                Some(t) => bytes_to_bits(encode_utf8(t@)),
                None => Seq::<bool>::empty(),
            }));
            assert(self.encoder@ =~= old(self).encoder@ + old(self).payload());
        }
        Ok(())
    }
}

} // verus!
