//! Event `0x0001`, client side: reconstructing an HTML document from a
//! fyve operation stream.

use vstd::prelude::*;
use vstd::string::StringExecFns;
use vstd::utf8::{decode_utf8, valid_utf8};

use crate::bits::bits_to_uint;
use crate::decoder::{bytes_at, cstr_len, BitDecoder, Frame};
use crate::errors::{Error, ErrorKind};
use crate::fyve::{read_item, FyveImpl, FyveItem, OperatingCode, OperationCode};
use crate::html::{lemma_tags_view_pop, lemma_tags_view_push, tags_view, ContentView,
    HtmlContent, HtmlTag, TagView};
use crate::text::{push_char, string_from_utf8};

verus! {

broadcast use vstd::std_specs::vec::group_vec_axioms;

/// The mode of the document reconstructor.
#[derive(PartialEq, Eq, Structural, Clone, Copy, Debug)]
pub enum DocMode {
    /// Between elements.
    Idle,
    /// Reading an element name.
    InTag,
    /// Reading attribute names and values.
    InAttributes,
    /// Reading an element's contents.
    InData,
}

/// The whole state of the reconstructor: mode, open-tag stack (deepest
/// last), and the names being accumulated.
pub struct DocStateView {
    /// The mode.
    pub mode: DocMode,
    /// The open tags, the most recent last.
    pub stack: Seq<TagView>,
    /// The element name read so far.
    pub tag_name: Seq<char>,
    /// The attribute name read so far.
    pub attr_name: Seq<char>,
}

/// One symbol of the document stream: a character, a structure operation,
/// or a raw text run.
pub enum DocToken {
    /// A character of a name.
    Ch(char),
    /// `StartOfTag`.
    Open,
    /// `StartOfAttributes`.
    Attrs,
    /// `StartOfData`.
    Data,
    /// `EndOfData`.
    End,
    /// A `Utf8Chain` text run.
    Run(Seq<char>),
}

/// Reads one token at `pos`: an operation, a character, or a text run
/// with its 15-bit byte length.
pub open spec fn token_at(bits: Seq<bool>, pos: int) -> Option<(DocToken, int)> {
    match read_item(bits, pos) {
        None => None,
        Some((it, p2)) => match it {
            FyveItem::Symbol(c) => Some((DocToken::Ch(c), p2)),
            FyveItem::Control(op) => match op {
                OperationCode::StartOfTag => Some((DocToken::Open, p2)),
                OperationCode::StartOfAttributes => Some((DocToken::Attrs, p2)),
                OperationCode::StartOfData => Some((DocToken::Data, p2)),
                OperationCode::EndOfData => Some((DocToken::End, p2)),
                OperationCode::Utf8Chain => {
                    if p2 + 15 <= bits.len() {
                        let l = bits_to_uint(bits.subrange(p2, p2 + 15)) as int;
                        if p2 + 15 + 8 * l <= bits.len() && valid_utf8(
                            bytes_at(bits, p2 + 15, l),
                        ) {
                            Some(
                                (
                                    DocToken::Run(decode_utf8(bytes_at(bits, p2 + 15, l))),
                                    p2 + 15 + 8 * l,
                                ),
                            )
                        } else {
                            None
                        }
                    } else {
                        None
                    }
                },
                OperationCode::Unknown => None,
            },
        },
    }
}

/// A fresh open tag carrying only its name.
pub open spec fn fresh_tag(name: Seq<char>) -> TagView {
    TagView { name, attributes: Seq::empty(), children: Seq::empty() }
}

/// One transition of the reconstructor.
///
/// `StartOfTag` begins a name; `StartOfAttributes`, or `StartOfData`
/// straight after a name, opens the named child; a text run binds to the
/// pending attribute name in attributes and becomes a text child in data;
/// `EndOfData` closes the top tag into its parent.
pub open spec fn doc_step(s: DocStateView, tok: DocToken) -> DocStateView {
    match tok {
        DocToken::Ch(c) => {
            if s.mode is InTag {
                DocStateView { tag_name: s.tag_name.push(c), ..s }
            } else if s.mode is InAttributes {
                DocStateView { attr_name: s.attr_name.push(c), ..s }
            } else {
                s
            }
        },
        DocToken::Open => DocStateView { mode: DocMode::InTag, tag_name: Seq::empty(), ..s },
        DocToken::Attrs => DocStateView {
            mode: DocMode::InAttributes,
            attr_name: Seq::empty(),
            stack: s.stack.push(fresh_tag(s.tag_name)),
            ..s
        },
        DocToken::Data => {
            if s.mode is InTag {
                DocStateView {
                    mode: DocMode::InData,
                    stack: s.stack.push(fresh_tag(s.tag_name)),
                    ..s
                }
            } else {
                DocStateView { mode: DocMode::InData, ..s }
            }
        },
        DocToken::End => {
            if s.stack.len() >= 2 {
                let child = s.stack.last();
                let parent = s.stack[s.stack.len() - 2];
                DocStateView {
                    mode: DocMode::Idle,
                    tag_name: Seq::empty(),
                    attr_name: Seq::empty(),
                    stack: s.stack.drop_last().drop_last().push(
                        TagView {
                            children: parent.children.push(ContentView::Child(child)),
                            ..parent
                        },
                    ),
                }
            } else {
                DocStateView {
                    mode: DocMode::Idle,
                    tag_name: Seq::empty(),
                    attr_name: Seq::empty(),
                    stack: Seq::empty(),
                }
            }
        },
        DocToken::Run(txt) => {
            if s.mode is InAttributes && s.stack.len() > 0 {
                let top = s.stack.last();
                DocStateView {
                    attr_name: Seq::empty(),
                    stack: s.stack.drop_last().push(
                        TagView {
                            attributes: top.attributes.push((s.attr_name, txt)),
                            ..top
                        },
                    ),
                    ..s
                }
            } else if s.mode is InData && s.stack.len() > 0 {
                let top = s.stack.last();
                DocStateView {
                    stack: s.stack.drop_last().push(
                        TagView { children: top.children.push(ContentView::Text(txt)), ..top },
                    ),
                    ..s
                }
            } else {
                s
            }
        },
    }
}

/// Runs the reconstructor from `pos` to `stop` and yields the top of the
/// final stack: the initial parent when the stream is balanced.
pub open spec fn doc_run(bits: Seq<bool>, pos: int, stop: int, s: DocStateView) -> Option<
    TagView,
>
    decreases stop - pos,
{
    if pos >= stop {
        if s.stack.len() > 0 {
            Some(s.stack.last())
        } else {
            None
        }
    } else {
        match token_at(bits, pos) {
            None => None,
            Some((tok, p2)) => {
                if p2 <= pos {
                    None
                } else {
                    let p3 = if p2 > stop {
                        stop
                    } else {
                        p2
                    };
                    doc_run(bits, p3, stop, doc_step(s, tok))
                }
            },
        }
    }
}

/// A received document: the file's name, then the tree reconstructed
/// into the `parent` tag.
#[derive(Debug)]
pub struct HtmlFileResponse {
    /// The cursor over the received frame, at the start of the payload.
    pub decoder: BitDecoder,
    /// The received file name.
    pub name: String,
    /// The tag the document is rebuilt into.
    pub parent: HtmlTag,
}

impl HtmlFileResponse {
    /// Wraps a cursor positioned at the start of the payload; the parent
    /// starts empty and collects the document.
    pub fn new(decoder: BitDecoder) -> (r: HtmlFileResponse)
        ensures
            r.decoder == decoder,
            r.name@ == Seq::<char>::empty(),
            r.parent@ == crate::html::empty_tag_view(),
    {
        HtmlFileResponse { decoder, name: String::new(), parent: HtmlTag::new(String::new()) }
    }

    /// Reads the file name up to its zero byte, then drives the
    /// reconstructor over the operation stream until the payload's end.
    ///
    /// Fails with `SizeConstraintViolation` when bits run out, and with
    /// `BadRequest` (code 400) on an unknown operation, a text that is
    /// not UTF-8, a character outside the alphabet, or an unbalanced
    /// stream.
    pub fn decode(&mut self, frame: &Frame) -> (r: Result<(), Error>)
        requires
            old(self).decoder.position == 56,
        ensures
            ({
                let bits = old(self).decoder@;
                let k = cstr_len(bits, 56);
                let stop = 56 + frame.data_size as int;
                let init = DocStateView {
                    mode: DocMode::Idle,
                    stack: seq![old(self).parent@],
                    tag_name: Seq::empty(),
                    attr_name: Seq::empty(),
                };
                let run = doc_run(bits, 56 + 8 * k->Some_0 + 8, stop, init);
                &&& r is Ok <==> k is Some && valid_utf8(bytes_at(bits, 56, k->Some_0))
                    && run is Some
                &&& r is Ok ==> final(self).name@ == decode_utf8(bytes_at(bits, 56, k->Some_0))
                    && final(self).parent@ == run->Some_0
                &&& r is Err ==> (r->Err_0.kind is SizeConstraintViolation || (
                r->Err_0.kind is BadRequest && r->Err_0.code == 400))
            }),
    {
        let name_bytes = match self.decoder.read_until_zero() {
            Ok(v) => v,
            Err(e) => {
                return Err(e);
            },
        };
        let name = match string_from_utf8(name_bytes) {
            Some(s) => s,
            None => {
                return Err(bad(400, "Invalid UTF-8"));
            },
        };
        let stop64: u64 = 56u64 + frame.data_size as u64;
        let ghost bits = self.decoder@;
        let ghost stop = 56 + frame.data_size as int;
        let ghost init = DocStateView {
            mode: DocMode::Idle,
            stack: seq![old(self).parent@],
            tag_name: Seq::empty(),
            attr_name: Seq::empty(),
        };
        let mut mode = DocMode::Idle;
        let mut stack: Vec<HtmlTag> = Vec::new();
        let mut tag_name = String::new();
        let mut attr_name = String::new();
        let parent_start = crate::html::clone_tag(&self.parent);
        stack.push(parent_start);
        proof {
            assert(tags_view(stack@) =~= init.stack);
        }
        loop
            invariant
                self.decoder@ == bits,
                bits == old(self).decoder@,
                stop == 56 + frame.data_size as int,
                stop64 == stop,
                cstr_len(bits, 56) is Some,
                valid_utf8(bytes_at(bits, 56, cstr_len(bits, 56)->Some_0)),
                name@ == decode_utf8(bytes_at(bits, 56, cstr_len(bits, 56)->Some_0)),
                init == (DocStateView {
                    mode: DocMode::Idle,
                    stack: seq![old(self).parent@],
                    tag_name: Seq::empty(),
                    attr_name: Seq::empty(),
                }),
                doc_run(
                    bits,
                    self.decoder.position as int,
                    stop,
                    DocStateView {
                        mode: mode,
                        stack: tags_view(stack@),
                        tag_name: tag_name@,
                        attr_name: attr_name@,
                    },
                ) == doc_run(bits, 56 + 8 * cstr_len(bits, 56)->Some_0 + 8, stop, init),
            decreases
                    (if stop > self.decoder.position as int {
                        stop - self.decoder.position
                    } else {
                        0int
                    }),
        {
            let ghost cur = DocStateView {
                mode: mode,
                stack: tags_view(stack@),
                tag_name: tag_name@,
                attr_name: attr_name@,
            };
            if self.decoder.position as u64 >= stop64 {
                if stack.len() == 0 {
                    return Err(bad(400, "Unbalanced document"));
                }
                let top = stack.pop().unwrap();
                proof {
                    assert(cur.stack.last() == top@);
                }
                self.parent = top;
                self.name = name;
                return Ok(());
            }
            let ghost pos0 = self.decoder.position as int;
            let op = match FyveImpl::get_op(&mut self.decoder) {
                Ok(op) => op,
                Err(e) => {
                    proof {
                        assert(read_item(bits, pos0) is None);
                    }
                    return Err(e);
                },
            };
            let ghost oplen = crate::fyve::op_len_at(bits, pos0)->Some_0;
            proof {
                assert(oplen == 5 || oplen == 10 || oplen == 15 || oplen == 20);
            }
            match op.kind {
                OperatingCode::Character => {
                    proof {
                        crate::fyve::lemma_value_of_chunks_at(bits, pos0, op.value@);
                    }
                    let c = match op.get_char() {
                        Ok(c) => c,
                        Err(e) => {
                            proof {
                                assert(read_item(bits, pos0) is None);
                            }
                            return Err(e);
                        },
                    };
                    let ghost tok = DocToken::Ch(c);
                    proof {
                        assert(read_item(bits, pos0) == Some(
                            (FyveItem::Symbol(c), pos0 + oplen),
                        ));
                        assert(token_at(bits, pos0) == Some((tok, pos0 + oplen)));
                    }
                    match mode {
                        DocMode::InTag => {
                            push_char(&mut tag_name, c);
                        },
                        DocMode::InAttributes => {
                            push_char(&mut attr_name, c);
                        },
                        _ => {},
                    }
                    proof {
                        lemma_run_clamp(bits, pos0, pos0 + oplen, stop, doc_step(cur, tok));
                        assert(DocStateView {
                            mode: mode,
                            stack: tags_view(stack@),
                            tag_name: tag_name@,
                            attr_name: attr_name@,
                        } == doc_step(cur, tok));
                    }
                },
                OperatingCode::System => {
                    let opcode = match op.code {
                        Some(oc) => oc,
                        None => {
                            return Err(bad(400, "Invalid operation code"));
                        },
                    };
                    match opcode {
                        OperationCode::StartOfTag => {
                            let ghost tok = DocToken::Open;
                            proof {
                                assert(token_at(bits, pos0) == Some((tok, pos0 + 10)));
                            }
                            mode = DocMode::InTag;
                            tag_name = String::new();
                            proof {
                                lemma_run_clamp(bits, pos0, pos0 + 10, stop, doc_step(cur, tok));
                                assert(DocStateView {
                                    mode: mode,
                                    stack: tags_view(stack@),
                                    tag_name: tag_name@,
                                    attr_name: attr_name@,
                                } == doc_step(cur, tok));
                            }
                        },
                        OperationCode::StartOfAttributes => {
                            let ghost tok = DocToken::Attrs;
                            proof {
                                assert(token_at(bits, pos0) == Some((tok, pos0 + 10)));
                            }
                            mode = DocMode::InAttributes;
                            attr_name = String::new();
                            let fresh = HtmlTag::new(tag_name.clone());
                            let ghost prev = stack@;
                            stack.push(fresh);
                            proof {
                                lemma_tags_view_push(prev, stack@.last());
                                assert(tags_view(stack@) =~= cur.stack.push(
                                    fresh_tag(cur.tag_name),
                                ));
                                lemma_run_clamp(bits, pos0, pos0 + 10, stop, doc_step(cur, tok));
                                assert(DocStateView {
                                    mode: mode,
                                    stack: tags_view(stack@),
                                    tag_name: tag_name@,
                                    attr_name: attr_name@,
                                } == doc_step(cur, tok));
                            }
                        },
                        OperationCode::StartOfData => {
                            let ghost tok = DocToken::Data;
                            proof {
                                assert(token_at(bits, pos0) == Some((tok, pos0 + 10)));
                            }
                            let was_in_tag = match mode {
                                DocMode::InTag => true,
                                _ => false,
                            };
                            mode = DocMode::InData;
                            if was_in_tag {
                                let fresh = HtmlTag::new(tag_name.clone());
                                let ghost prev = stack@;
                                stack.push(fresh);
                                proof {
                                    lemma_tags_view_push(prev, stack@.last());
                                    assert(tags_view(stack@) =~= cur.stack.push(
                                        fresh_tag(cur.tag_name),
                                    ));
                                }
                            }
                            proof {
                                lemma_run_clamp(bits, pos0, pos0 + 10, stop, doc_step(cur, tok));
                                assert(DocStateView {
                                    mode: mode,
                                    stack: tags_view(stack@),
                                    tag_name: tag_name@,
                                    attr_name: attr_name@,
                                } == doc_step(cur, tok));
                            }
                        },
                        OperationCode::EndOfData => {
                            let ghost tok = DocToken::End;
                            proof {
                                assert(token_at(bits, pos0) == Some((tok, pos0 + 10)));
                            }
                            mode = DocMode::Idle;
                            tag_name = String::new();
                            attr_name = String::new();
                            if stack.len() >= 2 {
                                let ghost prev = stack@;
                                let child = stack.pop().unwrap();
                                let mut parent = stack.pop().unwrap();
                                let ghost mid = stack@;
                                parent.add_data(HtmlContent::Child(child));
                                stack.push(parent);
                                proof {
                                    lemma_tags_view_pop(prev);
                                    lemma_tags_view_pop(prev.drop_last());
                                    lemma_tags_view_push(mid, stack@.last());
                                    assert(tags_view(stack@) =~= doc_step(cur, tok).stack);
                                }
                            } else {
                                if stack.len() == 1 {
                                    let _ = stack.pop();
                                }
                                proof {
                                    assert(tags_view(stack@) =~= Seq::<TagView>::empty());
                                }
                            }
                            proof {
                                lemma_run_clamp(bits, pos0, pos0 + 10, stop, doc_step(cur, tok));
                                assert(DocStateView {
                                    mode: mode,
                                    stack: tags_view(stack@),
                                    tag_name: tag_name@,
                                    attr_name: attr_name@,
                                } == doc_step(cur, tok));
                            }
                        },
                        OperationCode::Utf8Chain => {
                            let ghost p2 = pos0 + 10;
                            proof {
                                crate::bits::lemma_bits_to_uint_bound(
                                    bits.subrange(p2, p2 + 15),
                                );
                                vstd::arithmetic::power2::lemma2_to64();
                            }
                            let text_len = match self.decoder.read_data(15) {
                                Ok(v) => v,
                                Err(e) => {
                                    return Err(e);
                                },
                            };
                            let bytes = match self.decoder.read_bytes(text_len as usize) {
                                Ok(v) => v,
                                Err(e) => {
                                    return Err(e);
                                },
                            };
                            let txt = match string_from_utf8(bytes) {
                                Some(s) => s,
                                None => {
                                    return Err(bad(400, "Invalid UTF-8"));
                                },
                            };
                            let ghost tok = DocToken::Run(txt@);
                            proof {
                                assert(token_at(bits, pos0) == Some(
                                    (tok, p2 + 15 + 8 * (text_len as int)),
                                ));
                            }
                            let in_attrs = match mode {
                                DocMode::InAttributes => true,
                                _ => false,
                            };
                            let in_data = match mode {
                                DocMode::InData => true,
                                _ => false,
                            };
                            if in_attrs && stack.len() > 0 {
                                let ghost prev = stack@;
                                let mut top = stack.pop().unwrap();
                                let ghost mid = stack@;
                                let pending = attr_name.clone();
                                attr_name = String::new();
                                top.add_attribute(pending, txt);
                                stack.push(top);
                                proof {
                                    lemma_tags_view_pop(prev);
                                    lemma_tags_view_push(mid, stack@.last());
                                    assert(tags_view(stack@) =~= doc_step(cur, tok).stack);
                                }
                            } else if in_data && stack.len() > 0 {
                                let ghost prev = stack@;
                                let mut top = stack.pop().unwrap();
                                let ghost mid = stack@;
                                top.add_data(HtmlContent::Text(txt));
                                stack.push(top);
                                proof {
                                    lemma_tags_view_pop(prev);
                                    lemma_tags_view_push(mid, stack@.last());
                                    assert(tags_view(stack@) =~= doc_step(cur, tok).stack);
                                }
                            }
                            proof {
                                lemma_run_clamp(
                                    bits,
                                    pos0,
                                    p2 + 15 + 8 * (text_len as int),
                                    stop,
                                    doc_step(cur, tok),
                                );
                                assert(DocStateView {
                                    mode: mode,
                                    stack: tags_view(stack@),
                                    tag_name: tag_name@,
                                    attr_name: attr_name@,
                                } == doc_step(cur, tok));
                            }
                        },
                        OperationCode::Unknown => {
                            proof {
                                assert(token_at(bits, pos0) is None);
                            }
                            return Err(bad(400, "Unknown operation code"));
                        },
                    }
                },
            }
        }
    }
}

/// Running from a position at or past the stop equals running from the
/// stop itself: both finish the same state.
pub proof fn lemma_run_clamp(bits: Seq<bool>, pos: int, p2: int, stop: int, s: DocStateView)
    requires
        pos < stop,
        p2 > pos,
    ensures
        doc_run(bits, (if p2 > stop { stop } else { p2 }), stop, s) == doc_run(bits, p2, stop, s),
{
    if p2 > stop {
        assert(doc_run(bits, p2, stop, s) == (if s.stack.len() > 0 {
            Some(s.stack.last())
        } else {
            None::<TagView>
        }));
        assert(doc_run(bits, stop, stop, s) == (if s.stack.len() > 0 {
            Some(s.stack.last())
        } else {
            None::<TagView>
        }));
    }
}

/// A malformed document stream.
fn bad(code: u32, msg: &str) -> (r: Error)
    ensures
        r.code == code && r.kind is BadRequest,
{
    Error { code, message: String::from_str(msg), kind: ErrorKind::BadRequest }
}

} // verus!
