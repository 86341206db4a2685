//! Event `0x0003`, client side: decoding a component-needs response.

use vstd::prelude::*;
use vstd::string::StringExecFns;
use vstd::utf8::{decode_utf8, valid_utf8};

use crate::decoder::{bytes_at, BitDecoder, Frame};
use crate::errors::{Error, ErrorKind};
use crate::text::{clone_bytes, lemma_split_nonempty, split_bytes, split_bytes_spec,
    string_from_utf8};

verus! {

/// A received component description: the payload splits on zero bytes
/// into a head and the file names; the head splits on a `0x01` byte into
/// the component name and an optional title.
#[derive(Debug)]
pub struct ComponentNeedsResponse {
    /// The cursor over the received frame, at the start of the payload.
    pub decoder: BitDecoder,
    /// The received component name.
    pub component_name: String,
    /// The received title, if one was sent.
    pub title: Option<String>,
    /// The received file names.
    pub files: Vec<String>,
}

/// Whether every text piece of the payload is valid UTF-8.
pub open spec fn pieces_utf8(parts: Seq<Seq<u8>>, head: Seq<Seq<u8>>) -> bool {
    &&& valid_utf8(head[0])
    &&& head.len() >= 2 ==> valid_utf8(head[1])
    &&& forall|k: int| 1 <= k < parts.len() ==> valid_utf8(#[trigger] parts[k])
}

impl ComponentNeedsResponse {
    /// Wraps a cursor positioned at the start of the payload.
    pub fn new(decoder: BitDecoder) -> (r: ComponentNeedsResponse)
        ensures
            r.decoder == decoder,
            r.component_name@ == Seq::<char>::empty(),
            r.title is None,
            r.files@ == Seq::<String>::empty(),
    {
        ComponentNeedsResponse {
            decoder,
            component_name: String::new(),
            title: None,
            files: Vec::new(),
        }
    }

    /// Splits the payload into component name, optional title and file
    /// names.
    ///
    /// Fails with `SizeConstraintViolation` when the payload is shorter
    /// than its size field says, and with `BadRequest` (code 400) when a
    /// piece is not UTF-8.
    pub fn decode(&mut self, frame: &Frame) -> (r: Result<(), Error>)
        ensures
            ({
                let bits = old(self).decoder@;
                let p = old(self).decoder.position as int;
                let cnt = frame.data_size as int / 8;
                let parts = split_bytes_spec(bytes_at(bits, p, cnt), 0);
                let head = split_bytes_spec(parts[0], 1);
                &&& r is Ok <==> p + 8 * cnt <= bits.len() && pieces_utf8(parts, head)
                &&& r is Ok ==> ({
                    &&& final(self).component_name@ == decode_utf8(head[0])
                    &&& (final(self).title is Some <==> head.len() >= 2)
                    &&& final(self).title is Some ==> final(self).title->Some_0@ == decode_utf8(
                        head[1],
                    )
                    &&& ({
                        let fs = final(self).files@;
                        fs.len() == parts.len() - 1 && forall|k: int|
                            0 <= k < parts.len() - 1 ==> (#[trigger] fs[k])@ == decode_utf8(
                                parts[k + 1],
                            )
                    })
                })
                &&& r is Err ==> (r->Err_0.kind is SizeConstraintViolation || (
                r->Err_0.kind is BadRequest && r->Err_0.code == 400))
            }),
    {
        let cnt = (frame.data_size / 8) as usize;
        let bytes = match self.decoder.read_bytes(cnt) {
            Ok(v) => v,
            Err(e) => {
                return Err(e);
            },
        };
        let parts = split_bytes(&bytes, 0);
        proof {
            lemma_split_nonempty(bytes@, 0, 0, 0);
            assert(parts.deep_view()[0] == parts@[0]@);
        }
        let head = split_bytes(&parts[0], 1);
        proof {
            lemma_split_nonempty(parts@[0]@, 1, 0, 0);
            assert(head.deep_view()[0] == head@[0]@);
        }
        let name = match string_from_utf8(clone_bytes(&head[0])) {
            Some(s) => s,
            None => {
                return Err(invalid_utf8());
            },
        };
        let title = if head.len() >= 2 {
            proof {
                assert(head.deep_view()[1] == head@[1]@);
            }
            match string_from_utf8(clone_bytes(&head[1])) {
                Some(s) => Some(s),
                None => {
                    return Err(invalid_utf8());
                },
            }
        } else {
            None
        };
        let mut files: Vec<String> = Vec::new();
        let mut k: usize = 1;
        let ghost dparts = parts.deep_view();
        while k < parts.len()
            invariant
                1 <= k <= parts@.len(),
                dparts == parts.deep_view(),
                dparts == split_bytes_spec(
                    bytes_at(
                        old(self).decoder@,
                        old(self).decoder.position as int,
                        frame.data_size as int / 8,
                    ),
                    0,
                ),
                files@.len() == k - 1,
                forall|t: int| 0 <= t < k - 1 ==> (#[trigger] files@[t])@ == decode_utf8(
                    dparts[t + 1],
                ),
                forall|t: int| 1 <= t < k ==> valid_utf8(#[trigger] dparts[t]),
            decreases parts@.len() - k,
        {
            proof {
                assert(parts.deep_view()[k as int] == parts@[k as int]@);
            }
            match string_from_utf8(clone_bytes(&parts[k])) {
                Some(s) => {
                    files.push(s);
                },
                None => {
                    return Err(invalid_utf8());
                },
            }
            k = k + 1;
        }
        self.component_name = name;
        self.title = title;
        self.files = files;
        Ok(())
    }
}

/// The fault for a text piece that is not UTF-8.
fn invalid_utf8() -> (r: Error)
    ensures
        r.code == 400 && r.kind is BadRequest,
{
    Error { code: 400, message: String::from_str("Invalid UTF-8"), kind: ErrorKind::BadRequest }
}

} // verus!
