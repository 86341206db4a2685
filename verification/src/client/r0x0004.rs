//! Event `0x0004`, client side: decoding a file carried in the fyve
//! alphabet.

use vstd::prelude::*;
use vstd::string::StringExecFns;
use vstd::utf8::{decode_utf8, valid_utf8};

use crate::decoder::{bytes_at, cstr_len, BitDecoder, Frame};
use crate::errors::{Error, ErrorKind};
use crate::fyve::{read_item, FyveImpl, FyveItem, OperatingCode};
use crate::text::{push_char, string_from_utf8};

verus! {

/// The characters read from a fyve content region: `None` when the bits
/// run out mid-operation, a value is not in the alphabet, or a system
/// operation stands inside the content.
pub open spec fn content_parse(bits: Seq<bool>, pos: int, stop: int) -> Option<Seq<char>>
    decreases stop - pos,
{
    if pos >= stop {
        Some(Seq::empty())
    } else {
        match read_item(bits, pos) {
            None => None,
            Some((it, p2)) => match it {
                FyveItem::Symbol(c) => {
                    if p2 <= pos {
                        None
                    } else {
                        let p3 = if p2 > stop {
                            stop
                        } else {
                            p2
                        };
                        match content_parse(bits, p3, stop) {
                            None => None,
                            Some(rest) => Some(seq![c] + rest),
                        }
                    }
                },
                FyveItem::Control(_) => None,
            },
        }
    }
}

/// A received fyve file: the name as zero-terminated UTF-8 bytes, then
/// the content as fyve characters up to the end of the payload.
#[derive(Debug)]
pub struct FullFyveResponse {
    /// The cursor over the received frame, at the start of the payload.
    pub decoder: BitDecoder,
    /// The received file name.
    pub filename: String,
    /// The received content.
    pub content: String,
}

impl FullFyveResponse {
    /// Wraps a cursor positioned at the start of the payload.
    pub fn new(decoder: BitDecoder) -> (r: FullFyveResponse)
        ensures
            r.decoder == decoder,
            r.filename@ == Seq::<char>::empty(),
            r.content@ == Seq::<char>::empty(),
    {
        FullFyveResponse { decoder, filename: String::new(), content: String::new() }
    }

    /// Reads the file name up to its zero byte, then fyve characters until
    /// the payload's declared end.
    ///
    /// Fails with `SizeConstraintViolation` when bits run out, and with
    /// `BadRequest` (code 400) on a name that is not UTF-8, a character
    /// not in the alphabet, or a system operation inside the content.
    pub fn decode(&mut self, frame: &Frame) -> (r: Result<(), Error>)
        requires
            old(self).decoder.position == 56,
        ensures
            ({
                let bits = old(self).decoder@;
                let k = cstr_len(bits, 56);
                let stop = 56 + frame.data_size as int;
                &&& r is Ok <==> k is Some && valid_utf8(bytes_at(bits, 56, k->Some_0))
                    && content_parse(bits, 56 + 8 * k->Some_0 + 8, stop) is Some
                &&& r is Ok ==> final(self).filename@ == decode_utf8(
                    bytes_at(bits, 56, k->Some_0),
                ) && final(self).content@ == content_parse(
                    bits,
                    56 + 8 * k->Some_0 + 8,
                    stop,
                )->Some_0
                &&& r is Err ==> (r->Err_0.kind is SizeConstraintViolation || (
                r->Err_0.kind is BadRequest && r->Err_0.code == 400))
            }),
    {
        let name_bytes = match self.decoder.read_until_zero() {
            Ok(v) => v,
            Err(e) => {
                return Err(e);
            },
        };
        let name = match string_from_utf8(name_bytes) {
            Some(s) => s,
            None => {
                return Err(Error {
                    code: 400,
                    message: String::from_str("Invalid UTF-8"),
                    kind: ErrorKind::BadRequest,
                });
            },
        };
        let stop64: u64 = 56u64 + frame.data_size as u64;
        let mut content = String::new();
        let ghost bits = self.decoder@;
        let ghost stop = 56 + frame.data_size as int;
        proof {
            if content_parse(bits, self.decoder.position as int, stop) is Some {
                assert(content@ + content_parse(
                    bits,
                    self.decoder.position as int,
                    stop,
                )->Some_0 =~= content_parse(bits, self.decoder.position as int, stop)->Some_0);
            }
        }
        loop
            invariant
                self.decoder@ == bits,
                bits == old(self).decoder@,
                stop == 56 + frame.data_size as int,
                stop64 == stop,
                cstr_len(bits, 56) is Some,
                valid_utf8(bytes_at(bits, 56, cstr_len(bits, 56)->Some_0)),
                name@ == decode_utf8(bytes_at(bits, 56, cstr_len(bits, 56)->Some_0)),
                (match content_parse(bits, self.decoder.position as int, stop) {
                    Some(rest) => content_parse(
                        bits,
                        56 + 8 * cstr_len(bits, 56)->Some_0 + 8,
                        stop,
                    ) == Some(content@ + rest),
                    None => content_parse(
                        bits,
                        56 + 8 * cstr_len(bits, 56)->Some_0 + 8,
                        stop,
                    ) is None,
                }),
            decreases
                    (if stop > self.decoder.position as int {
                        stop - self.decoder.position
                    } else {
                        0int
                    }),
        {
            if self.decoder.position as u64 >= stop64 {
                proof {
                    assert(content_parse(bits, self.decoder.position as int, stop) == Some(
                        Seq::<char>::empty(),
                    ));
                    assert(content@ + Seq::<char>::empty() =~= content@);
                }
                self.content = content;
                self.filename = name;
                return Ok(());
            }
            let ghost pos0 = self.decoder.position as int;
            let op = match FyveImpl::get_op(&mut self.decoder) {
                Ok(op) => op,
                Err(e) => {
                    proof {
                        assert(read_item(bits, pos0) is None);
                    }
                    return Err(e);
                },
            };
            match op.kind {
                OperatingCode::Character => {
                    proof {
                        let l = crate::fyve::op_len_at(bits, pos0)->Some_0;
                        crate::fyve::lemma_value_of_chunks_at(bits, pos0, op.value@);
                        assert(op.value@.len() == l / 5);
                    }
                    match op.get_char() {
                        Ok(c) => {
                            proof {
                                let l = crate::fyve::op_len_at(bits, pos0)->Some_0;
                                let p2 = pos0 + l;
                                assert(l == 5 || l == 10 || l == 15 || l == 20);
                                assert(read_item(bits, pos0) == Some(
                                    (FyveItem::Symbol(c), p2),
                                ));
                                let p3 = if p2 > stop {
                                    stop
                                } else {
                                    p2
                                };
                                assert(content_parse(bits, pos0, stop) == (
                                match content_parse(bits, p3, stop) {
                                    None => None::<Seq<char>>,
                                    Some(rest) => Some(seq![c] + rest),
                                }));
                                if p2 > stop {
                                    assert(content_parse(bits, p2, stop) == Some(
                                        Seq::<char>::empty(),
                                    ));
                                    assert(content_parse(bits, p3, stop) == Some(
                                        Seq::<char>::empty(),
                                    ));
                                }
                                assert(self.decoder.position == p2);
                                if content_parse(bits, p2, stop) is Some {
                                    assert(content@ + (seq![c] + content_parse(
                                        bits,
                                        p2,
                                        stop,
                                    )->Some_0) =~= content@.push(c) + content_parse(
                                        bits,
                                        p2,
                                        stop,
                                    )->Some_0);
                                }
                            }
                            push_char(&mut content, c);
                        },
                        Err(e) => {
                            return Err(e);
                        },
                    }
                },
                OperatingCode::System => {
                    return Err(Error {
                        code: 400,
                        message: String::from_str("Invalid operation"),
                        kind: ErrorKind::BadRequest,
                    });
                },
            }
        }
    }
}

} // verus!
