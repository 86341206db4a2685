//! Event `0x0004`, server side: a whole file carried in the fyve
//! alphabet.

use vstd::prelude::*;
use vstd::string::{StrSliceExecFns, StringExecFns};
use vstd::utf8::encode_utf8;

use crate::bits::{bytes_to_bits, field_bits, BitOrder};
use crate::encoder::{max_bits, BitEncoder, EventEncoder};
use crate::errors::{Error, ErrorKind};
use crate::fyve::{all_in_alphabet, char_bits, fyve_text_bits, FyveImpl, lemma_fyve_text_prefix,
    lemma_fyve_text_prefix_le};

verus! {

/// Sends a file name and its whole content, each content character looked
/// up in the fyve alphabet; a character outside the alphabet is rejected
/// with `BadRequest`.
#[derive(Debug)]
pub struct FullFyveResponse {
    /// The payload buffer.
    pub encoder: BitEncoder,
    /// The file's base name, sent as UTF-8 bytes before a zero byte.
    pub filename: String,
    /// The file's content, sent in the fyve alphabet.
    pub content: String,
}

impl FullFyveResponse {
    /// Creates the response with an empty `Lsb0` payload buffer.
    pub fn new(filename: String, content: String) -> (r: FullFyveResponse)
        ensures
            r.encoder@ == Seq::<bool>::empty(),
            r.encoder.order == BitOrder::Lsb0,
            r.filename == filename,
            r.content == content,
    {
        FullFyveResponse { encoder: BitEncoder::new(BitOrder::Lsb0), filename, content }
    }
}

impl EventEncoder for FullFyveResponse {
    open spec fn event_id(&self) -> u16 {
        0x0004
    }

    open spec fn buffer(&self) -> Seq<bool> {
        self.encoder@
    }

    open spec fn encodes_ok(&self) -> bool {
        all_in_alphabet(self.content@) && self.encoder@.len() + self.payload().len()
            <= max_bits()
    }

    open spec fn payload(&self) -> Seq<bool> {
        bytes_to_bits(encode_utf8(self.filename@)) + field_bits(0, 8) + fyve_text_bits(
            self.content@,
        )
    }

    fn get_event(&self) -> (e: u16) {
        0x0004
    }

    fn get_encoder(&self) -> (enc: &BitEncoder) {
        &self.encoder
    }

    fn encode(&mut self) -> (r: Result<(), Error>) {
        proof {
            crate::encoder::lemma_bytes_to_bits_len(encode_utf8(self.filename@));
        }
        let bytes = self.filename.as_str().as_bytes_vec();
        match self.encoder.add_bytes(bytes.as_slice()) {
            Ok(_) => {},
            Err(e) => {
                proof {
                    lemma_fyve_text_prefix_le(self.content@, 0);
                }
                return Err(e);
            },
        }
        match self.encoder.add_data(0, 8) {
            Ok(_) => {},
            Err(e) => {
                return Err(e);
            },
        }
        let ghost mid = self.encoder@;
        let n = self.content.as_str().unicode_len();
        let mut i: usize = 0;
        while i < n
            invariant
                i <= n,
                n == self.content@.len(),
                self.content == old(self).content,
                self.filename == old(self).filename,
                self.encoder.order == old(self).encoder.order,
                mid == old(self).encoder@ + bytes_to_bits(encode_utf8(old(self).filename@))
                    + field_bits(0, 8),
                self.encoder@ == mid + fyve_text_bits(self.content@.take(i as int)),
                self.encoder@.len() <= max_bits(),
                forall|t: int| 0 <= t < i ==> crate::fyve::char_code(
                    #[trigger] self.content@[t],
                ) is Some,
            decreases n - i,
        {
            let c = self.content.as_str().get_char(i);
            proof {
                lemma_fyve_text_prefix(self.content@, i as int);
                lemma_fyve_text_prefix_le(self.content@, i + 1);
            }
            match FyveImpl::get_fyve(c) {
                Some((code, width)) => {
                    proof {
                        crate::fyve::lemma_item_bits_len(crate::fyve::FyveItem::Symbol(c));
                        assert(char_bits(c).len() == width as int);
                    }
                    match self.encoder.add_data(code, width) {
                        Ok(_) => {},
                        Err(e) => {
                            return Err(e);
                        },
                    }
                },
                None => {
                    return Err(Error {
                        code: 400,
                        message: String::from_str("Invalid character"),
                        kind: ErrorKind::BadRequest,
                    });
                },
            }
            i = i + 1;
        }
        proof {
            assert(self.content@.take(n as int) =~= self.content@);
            assert(self.encoder@ =~= old(self).encoder@ + old(self).payload());
        }
        Ok(())
    }
}

} // verus!
