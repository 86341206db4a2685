//! Event `0x0005`, server side: decoding an interaction request.

use vstd::prelude::*;
use vstd::string::StringExecFns;
use vstd::utf8::{decode_utf8, valid_utf8};

use crate::args::Arg;
use crate::bits::bits_to_uint;
use crate::decoder::{bytes_at, BitDecoder, Frame};
use crate::server::c0x0006::InteractionResponse;
use crate::server::dispatch::{ResponseStep, ServerResponse};
use crate::errors::{Error, ErrorKind};
use crate::json::{json_accepts, json_parses};
use crate::text::{clone_bytes, dec_form, dec_value_signed, parse_i32_bytes, split_bytes,
    split_bytes_spec, string_from_utf8};

verus! {

/// Whether the five split fields of an interaction payload are well
/// formed: names present and UTF-8, object id a decimal `i32`, parameters
/// a JSON document.
pub open spec fn fields_ok(parts: Seq<Seq<u8>>) -> bool {
    &&& parts.len() == 5
    &&& valid_utf8(parts[0]) && parts[0].len() > 0
    &&& valid_utf8(parts[1]) && parts[1].len() > 0
    &&& (parts[2].len() == 0 || valid_utf8(parts[2]))
    &&& (parts[3].len() == 0 || (dec_form(parts[3]) && i32::MIN <= dec_value_signed(parts[3])
        <= i32::MAX))
    &&& (parts[4].len() == 0 || (valid_utf8(parts[4]) && json_accepts(decode_utf8(parts[4]))))
}

/// A received interaction request: a 64-bit request id, then five
/// zero-separated fields; empty optional fields mean absent.
#[derive(Debug)]
pub struct InteractionRequest {
    /// The cursor over the received frame, at the start of the payload.
    pub decoder: BitDecoder,
    /// The unique request id.
    pub request_id: u64,
    /// The name of the function to call.
    pub function_name: String,
    /// The name of the object collection the function belongs to.
    pub parent_name: String,
    /// The id of the object to interact with.
    pub object_id: Option<i32>,
    /// The JSON text of the parameters, if any.
    pub params: Option<String>,
    /// The token that authenticates the request.
    pub token: Option<String>,
}

impl InteractionRequest {
    /// Wraps a cursor positioned at the start of the payload.
    pub fn new(decoder: BitDecoder) -> (r: InteractionRequest)
        ensures
            r.decoder == decoder,
            r.request_id == 0,
            r.function_name@ == Seq::<char>::empty(),
            r.parent_name@ == Seq::<char>::empty(),
            r.object_id is None,
            r.params is None,
            r.token is None,
    {
        InteractionRequest {
            decoder,
            request_id: 0,
            function_name: String::new(),
            parent_name: String::new(),
            object_id: None,
            params: None,
            token: None,
        }
    }

    /// Reads the request id, splits the rest of the payload on zero bytes
    /// into exactly five fields, and fills the request from them.
    ///
    /// Fails with `SizeConstraintViolation` when the payload is shorter
    /// than its size field says, and with `BadRequest` (code 400) on any
    /// malformed field.
    pub fn decode(&mut self, frame: &Frame) -> (r: Result<(), Error>)
        ensures
            ({
                let bits = old(self).decoder@;
                let p = old(self).decoder.position as int;
                let cnt = (frame.data_size - 64) as int / 8;
                let parts = split_bytes_spec(bytes_at(bits, p + 64, cnt), 0);
                &&& r is Ok <==> frame.data_size >= 64 && p + 64 + 8 * cnt <= bits.len()
                    && fields_ok(parts)
                &&& r is Ok ==> ({
                    &&& final(self).request_id as nat == bits_to_uint(
                        bits.subrange(p, p + 32),
                    ) * 0x1_0000_0000 + bits_to_uint(bits.subrange(p + 32, p + 64))
                    &&& final(self).function_name@ == decode_utf8(parts[0])
                    &&& final(self).parent_name@ == decode_utf8(parts[1])
                    &&& (final(self).token is Some <==> parts[2].len() > 0)
                    &&& final(self).token is Some ==> final(self).token->Some_0@ == decode_utf8(
                        parts[2],
                    )
                    &&& (final(self).object_id is Some <==> parts[3].len() > 0)
                    &&& final(self).object_id is Some ==> ({
                        let oid = final(self).object_id->Some_0;
                        oid as int == dec_value_signed(parts[3])
                    })
                    &&& (final(self).params is Some <==> parts[4].len() > 0)
                    &&& final(self).params is Some ==> final(self).params->Some_0@
                        == decode_utf8(parts[4])
                })
                &&& r is Err ==> (r->Err_0.kind is SizeConstraintViolation || (
                r->Err_0.kind is BadRequest && r->Err_0.code == 400))
            }),
    {
        proof {
            crate::bits::lemma_bits_to_uint_bound(
                old(self).decoder@.subrange(
                    old(self).decoder.position as int,
                    old(self).decoder.position + 32,
                ),
            );
            crate::bits::lemma_bits_to_uint_bound(
                old(self).decoder@.subrange(
                    old(self).decoder.position + 32,
                    old(self).decoder.position + 64,
                ),
            );
            vstd::arithmetic::power2::lemma2_to64();
        }
        let upper_request_id = match self.decoder.read_data(32) {
            Ok(v) => v,
            Err(e) => {
                return Err(e);
            },
        };
        let lower_request_id = match self.decoder.read_data(32) {
            Ok(v) => v,
            Err(e) => {
                return Err(e);
            },
        };
        let request_id = (upper_request_id as u64) * 0x1_0000_0000u64 + (lower_request_id
            as u64);
        if frame.data_size < 64 {
            return Err(Error {
                code: 0b1000,
                message: String::from_str("Out of bound"),
                kind: ErrorKind::SizeConstraintViolation,
            });
        }
        let cnt = ((frame.data_size - 64) / 8) as usize;
        let data = match self.decoder.read_bytes(cnt) {
            Ok(v) => v,
            Err(e) => {
                return Err(e);
            },
        };
        let parts = split_bytes(&data, 0);
        if parts.len() != 5 {
            return Err(bad_request("Expected five fields"));
        }
        proof {
            assert(parts.deep_view()[0] == parts@[0]@);
            assert(parts.deep_view()[1] == parts@[1]@);
            assert(parts.deep_view()[2] == parts@[2]@);
            assert(parts.deep_view()[3] == parts@[3]@);
            assert(parts.deep_view()[4] == parts@[4]@);
        }
        let function_name = match string_from_utf8(clone_bytes(&parts[0])) {
            Some(s) => s,
            None => {
                return Err(bad_request("Invalid UTF-8"));
            },
        };
        if parts[0].len() == 0 {
            return Err(bad_request("Function name is empty"));
        }
        let parent_name = match string_from_utf8(clone_bytes(&parts[1])) {
            Some(s) => s,
            None => {
                return Err(bad_request("Invalid UTF-8"));
            },
        };
        if parts[1].len() == 0 {
            return Err(bad_request("Table name is empty"));
        }
        let token = if parts[2].len() == 0 {
            None
        } else {
            match string_from_utf8(clone_bytes(&parts[2])) {
                Some(s) => Some(s),
                None => {
                    return Err(bad_request("Invalid UTF-8"));
                },
            }
        };
        let object_id = if parts[3].len() == 0 {
            None
        } else {
            match parse_i32_bytes(&parts[3]) {
                Some(v) => Some(v),
                None => {
                    return Err(bad_request("Invalid object id"));
                },
            }
        };
        let params = if parts[4].len() == 0 {
            None
        } else {
            match string_from_utf8(clone_bytes(&parts[4])) {
                Some(s) => {
                    if json_parses(s.as_str()) {
                        Some(s)
                    } else {
                        return Err(bad_request("Invalid JSON"));
                    }
                },
                None => {
                    return Err(bad_request("Invalid UTF-8"));
                },
            }
        };
        self.request_id = request_id;
        self.function_name = function_name;
        self.parent_name = parent_name;
        self.token = token;
        self.object_id = object_id;
        self.params = params;
        Ok(())
    }
}

impl InteractionRequest {
    /// Plans the response from what the listener returned: the optional
    /// JSON document answering this request id.
    ///
    /// Fails with `InternalServerError` (code 500) when the arguments do
    /// not hold an optional JSON value.
    pub fn get_responses(&self, args: &Vec<Arg>) -> (r: Result<Vec<ResponseStep>, Error>)
        ensures
            r is Ok <==> args@.len() >= 1 && args@[0] is OptionValue,
            r is Ok ==> ({
                let steps = r->Ok_0@;
                &&& steps.len() == 1
                &&& steps[0] is Ready && steps[0]->Ready_0 is Interaction
                &&& ({
                    let resp = steps[0]->Ready_0->Interaction_0;
                    &&& resp.request_id == self.request_id
                    &&& resp.response == args@[0]->OptionValue_0
                    &&& resp.encoder@ == Seq::<bool>::empty()
                })
            }),
            r is Err ==> r->Err_0.code == 500 && r->Err_0.kind is InternalServerError,
    {
        if args.len() < 1 {
            return Err(Error {
                code: 500,
                message: String::from_str("Missing listener arguments"),
                kind: ErrorKind::InternalServerError,
            });
        }
        let response = match args[0].to_option_value() {
            Ok(v) => v,
            Err(e) => {
                return Err(e);
            },
        };
        Ok(
            vec![
                ResponseStep::Ready(
                    ServerResponse::Interaction(
                        InteractionResponse::new(self.request_id, response),
                    ),
                ),
            ],
        )
    }
}

/// A malformed field of the request.
fn bad_request(msg: &str) -> (r: Error)
    ensures
        r.code == 400 && r.kind is BadRequest,
{
    Error { code: 400, message: String::from_str(msg), kind: ErrorKind::BadRequest }
}

} // verus!
