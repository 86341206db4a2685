//! Event `0x0000`, server side: decoding a component request and planning
//! its responses.

use vstd::prelude::*;
use vstd::string::{StrSliceExecFns, StringExecFns};
use vstd::utf8::{decode_utf8, valid_utf8};

use crate::args::Arg;
use crate::decoder::{bytes_at, BitDecoder, Frame};
use crate::errors::{Error, ErrorKind};
use crate::server::c0x0003::ComponentNeedsResponse;
use crate::server::dispatch::{ResponseStep, ServerResponse};
use crate::text::{basename, basename_spec, ends_html, is_html_path, string_from_utf8};

verus! {

/// A received component request: the payload is the UTF-8 bytes of the
/// requested component's name.
#[derive(Debug)]
pub struct ComponentNeedsRequest {
    /// The cursor over the received frame, at the start of the payload.
    pub decoder: BitDecoder,
    /// The name of the component the client asks for.
    pub requested_component_name: String,
}

impl ComponentNeedsRequest {
    /// Wraps a cursor positioned at the start of the payload.
    pub fn new(decoder: BitDecoder) -> (r: ComponentNeedsRequest)
        ensures
            r.decoder == decoder,
            r.requested_component_name@ == Seq::<char>::empty(),
    {
        ComponentNeedsRequest { decoder, requested_component_name: String::new() }
    }

    /// Reads the whole payload as the component name.
    ///
    /// Fails with `SizeConstraintViolation` when the payload is shorter
    /// than its size field says, and with `BadRequest` (code 400) when the
    /// bytes are not UTF-8.
    pub fn decode(&mut self, frame: &Frame) -> (r: Result<(), Error>)
        ensures
            ({
                let bits = old(self).decoder@;
                let p = old(self).decoder.position as int;
                let cnt = frame.data_size as int / 8;
                &&& r is Ok <==> p + 8 * cnt <= bits.len() && valid_utf8(
                    bytes_at(bits, p, cnt),
                )
                &&& r is Ok ==> final(self).requested_component_name@ == decode_utf8(
                    bytes_at(bits, p, cnt),
                )
                &&& r is Err ==> (r->Err_0.kind is SizeConstraintViolation || (
                r->Err_0.kind is BadRequest && r->Err_0.code == 400))
            }),
    {
        let cnt = (frame.data_size / 8) as usize;
        let bytes = match self.decoder.read_bytes(cnt) {
            Ok(v) => v,
            Err(e) => {
                return Err(e);
            },
        };
        match string_from_utf8(bytes) {
            Some(s) => {
                self.requested_component_name = s;
                Ok(())
            },
            None => Err(Error {
                code: 400,
                message: String::from_str("Invalid UTF-8"),
                kind: ErrorKind::BadRequest,
            }),
        }
    }

    /// Plans the responses from what the listener returned: an optional
    /// title and the file paths of the component.
    ///
    /// The first step is the component description; each path then becomes
    /// a load step, an HTML one exactly when the path ends in `.html`.
    /// Fails with `InternalServerError` (code 500) when the arguments do
    /// not hold an optional title and a path list, and with `BadRequest`
    /// (code 400) when a path has an empty base name.
    pub fn get_responses(&self, args: &Vec<Arg>) -> (r: Result<Vec<ResponseStep>, Error>)
        ensures
            ({
                let ok_shape = args@.len() >= 2 && args@[0] is OptionText && args@[1] is VecText;
                let paths = args@[1]->VecText_0@;
                &&& r is Ok <==> ok_shape && (forall|i: int|
                    0 <= i < paths.len() ==> basename_spec((#[trigger] paths[i])@).len() > 0)
                &&& r is Ok ==> ({
                    let steps = r->Ok_0@;
                    &&& steps.len() == paths.len() + 1
                    &&& steps[0] is Ready && steps[0]->Ready_0 is ComponentNeeds
                    &&& ({
                        let first = steps[0]->Ready_0->ComponentNeeds_0;
                        &&& first.component_name@ == self.requested_component_name@
                        &&& first.title == args@[0]->OptionText_0
                        &&& first.files@.len() == paths.len()
                        &&& forall|i: int| 0 <= i < paths.len() ==> (#[trigger] first.files@[
                            i
                        ])@ == basename_spec(paths[i]@)
                        &&& first.encoder@ == Seq::<bool>::empty()
                    })
                    &&& forall|i: int| 0 <= i < paths.len() ==> #[trigger] steps[i + 1] == (
                    if ends_html(paths[i]@) {
                        ResponseStep::LoadHtml(paths[i])
                    } else {
                        ResponseStep::LoadFyve(paths[i])
                    })
                })
                &&& r is Err ==> ((r->Err_0.kind is InternalServerError && r->Err_0.code == 500)
                    || (r->Err_0.kind is BadRequest && r->Err_0.code == 400))
            }),
    {
        if args.len() < 2 {
            return Err(Error {
                code: 500,
                message: String::from_str("Missing listener arguments"),
                kind: ErrorKind::InternalServerError,
            });
        }
        let title = match args[0].to_option_text() {
            Ok(t) => t,
            Err(e) => {
                return Err(e);
            },
        };
        let files_path = match args[1].to_vec_text() {
            Ok(p) => p,
            Err(e) => {
                return Err(e);
            },
        };
        let ghost paths = args@[1]->VecText_0@;
        proof {
            assert(files_path@ =~= paths);
        }
        let mut files: Vec<String> = Vec::new();
        let mut i: usize = 0;
        while i < files_path.len()
            invariant
                i <= files_path@.len(),
                files_path@ == paths,
                paths == args@[1]->VecText_0@,
                args@.len() >= 2 && args@[0] is OptionText && args@[1] is VecText,
                files@.len() == i as int,
                forall|t: int| 0 <= t < i ==> (#[trigger] files@[t])@ == basename_spec(
                    paths[t]@,
                ),
                forall|t: int| 0 <= t < i ==> basename_spec((#[trigger] paths[t])@).len() > 0,
            decreases files_path@.len() - i,
        {
            let b = basename(files_path[i].as_str());
            if b.as_str().unicode_len() == 0 {
                return Err(Error {
                    code: 400,
                    message: String::from_str("Invalid file name"),
                    kind: ErrorKind::BadRequest,
                });
            }
            files.push(b);
            i = i + 1;
        }
        let first = ComponentNeedsResponse::new(
            self.requested_component_name.clone(),
            title,
            files,
        );
        let mut responses: Vec<ResponseStep> = Vec::new();
        responses.push(ResponseStep::Ready(ServerResponse::ComponentNeeds(first)));
        let ghost first_step = responses@[0];
        let mut k: usize = 0;
        while k < files_path.len()
            invariant
                k <= files_path@.len(),
                files_path@ == paths,
                paths == args@[1]->VecText_0@,
                args@.len() >= 2 && args@[0] is OptionText && args@[1] is VecText,
                responses@.len() == k + 1,
                responses@[0] == first_step,
                forall|t: int| 0 <= t < k ==> #[trigger] responses@[t + 1] == (if ends_html(
                    paths[t]@,
                ) {
                    ResponseStep::LoadHtml(paths[t])
                } else {
                    ResponseStep::LoadFyve(paths[t])
                }),
            decreases files_path@.len() - k,
        {
            let path = files_path[k].clone();
            if is_html_path(path.as_str()) {
                responses.push(ResponseStep::LoadHtml(path));
            } else {
                responses.push(ResponseStep::LoadFyve(path));
            }
            k = k + 1;
        }
        Ok(responses)
    }
}

} // verus!
