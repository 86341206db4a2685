//! Event `0x0001`, server side: emitting an HTML document as a fyve
//! operation stream.

use vstd::prelude::*;
use vstd::string::{StrSliceExecFns, StringExecFns};
use vstd::utf8::encode_utf8;

use crate::bits::{bit_of, bytes_to_bits, field_bits, BitOrder};
use crate::encoder::{max_bits, BitEncoder, EventEncoder};
use crate::errors::{Error, ErrorKind};
use crate::fyve::{all_in_alphabet, char_bits, fyve_text_bits, lemma_fyve_text_prefix, FyveImpl};
use crate::html::{contents_view, ContentView, HtmlContent, HtmlTag, TagView};

verus! {

broadcast use vstd::std_specs::vec::group_vec_axioms;

/// The bits of a raw text run: the `Utf8Chain` operation, 15 bits of byte
/// length, then the UTF-8 bytes.
pub open spec fn text_chunk_bits(s: Seq<char>) -> Seq<bool> {
    field_bits(0, 10) + field_bits(encode_utf8(s).len(), 15) + bytes_to_bits(encode_utf8(s))
}

/// The bits of the attribute pairs: each name in the alphabet, each value
/// as a text run.
pub open spec fn attrs_bits(attrs: Seq<(Seq<char>, Seq<char>)>) -> Seq<bool>
    decreases attrs.len(),
{
    if attrs.len() == 0 {
        Seq::empty()
    } else {
        attrs_bits(attrs.drop_last()) + fyve_text_bits(attrs.last().0) + text_chunk_bits(
            attrs.last().1,
        )
    }
}

/// The bits of one whole element: open the tag, its name in the alphabet,
/// its attributes if it has any, its content section, and the close.
pub open spec fn tag_bits(t: TagView) -> Seq<bool>
    decreases t,
{
    field_bits(16, 10) + fyve_text_bits(t.name) + (if t.attributes.len() > 0 {
        field_bits(17, 10) + attrs_bits(t.attributes)
    } else {
        Seq::empty()
    }) + field_bits(24, 10) + contents_bits(t.name, t.children) + field_bits(25, 10)
}

/// The bits of an element's contents: a non-empty text child outside a
/// `pre` element is a text run, an empty or `pre`-guarded one is skipped,
/// and a child element recurses.
pub open spec fn contents_bits(parent: Seq<char>, cs: Seq<ContentView>) -> Seq<bool>
    decreases cs,
{
    if cs.len() == 0 {
        Seq::empty()
    } else {
        contents_bits(parent, cs.drop_last()) + content_bits(parent, cs.last())
    }
}

/// The bits of one content element under the given parent name.
pub open spec fn content_bits(parent: Seq<char>, c: ContentView) -> Seq<bool>
    decreases c,
{
    match c {
        ContentView::Text(s) => {
            if s.len() > 0 && parent != seq!['p', 'r', 'e'] {
                text_chunk_bits(s)
            } else {
                Seq::empty()
            }
        },
        ContentView::Child(t) => tag_bits(t),
    }
}

/// Whether a name can be emitted: non-empty and wholly in the alphabet.
pub open spec fn name_wf(s: Seq<char>) -> bool {
    s.len() > 0 && all_in_alphabet(s)
}

/// Whether a text run can be emitted: its byte length fits the 15-bit
/// length field.
pub open spec fn text_wf(s: Seq<char>) -> bool {
    encode_utf8(s).len() < 0x8000
}

/// Whether one content element can be emitted under the given parent.
pub open spec fn content_wf(parent: Seq<char>, c: ContentView) -> bool
    decreases c,
{
    match c {
        ContentView::Text(s) => s.len() == 0 || parent == seq!['p', 'r', 'e'] || text_wf(s),
        ContentView::Child(t) => tag_wf(t),
    }
}

/// Whether an element's contents can be emitted.
pub open spec fn contents_wf(parent: Seq<char>, cs: Seq<ContentView>) -> bool
    decreases cs,
{
    if cs.len() == 0 {
        true
    } else {
        contents_wf(parent, cs.drop_last()) && content_wf(parent, cs.last())
    }
}

/// Whether a whole element can be emitted: its name and attribute names
/// in the alphabet, its attribute values and texts within the length
/// field, recursively.
pub open spec fn tag_wf(t: TagView) -> bool
    decreases t,
{
    &&& name_wf(t.name)
    &&& forall|i: int| 0 <= i < t.attributes.len() ==> name_wf((#[trigger] t.attributes[i]).0)
        && text_wf(t.attributes[i].1)
    &&& contents_wf(t.name, t.children)
}

/// Contents can be emitted exactly when each element can.
pub proof fn lemma_contents_wf_index(parent: Seq<char>, cs: Seq<ContentView>)
    ensures
        contents_wf(parent, cs) <==> (forall|i: int|
            0 <= i < cs.len() ==> content_wf(parent, #[trigger] cs[i])),
    decreases cs,
{
    if cs.len() > 0 {
        lemma_contents_wf_index(parent, cs.drop_last());
        assert forall|i: int| 0 <= i < cs.len() - 1 implies cs.drop_last()[i] == cs[i] by {}
        if contents_wf(parent, cs) {
            assert forall|i: int| 0 <= i < cs.len() implies content_wf(
                parent,
                #[trigger] cs[i],
            ) by {
                if i < cs.len() - 1 {
                    assert(cs.drop_last()[i] == cs[i]);
                } else {
                    assert(cs.last() == cs[i]);
                }
            }
        }
        if forall|i: int| 0 <= i < cs.len() ==> content_wf(parent, #[trigger] cs[i]) {
            assert(content_wf(parent, cs.last()));
        }
    }
}

/// One more content element appends its own bits.
pub proof fn lemma_contents_bits_prefix(parent: Seq<char>, cs: Seq<ContentView>, k: int)
    requires
        0 <= k < cs.len(),
    ensures
        contents_bits(parent, cs.take(k + 1)) == contents_bits(parent, cs.take(k))
            + content_bits(parent, cs[k]),
{
    assert(cs.take(k + 1).drop_last() =~= cs.take(k));
    assert(cs.take(k + 1).last() == cs[k]);
}

/// One more attribute pair appends its own bits.
pub proof fn lemma_attrs_bits_prefix(attrs: Seq<(Seq<char>, Seq<char>)>, k: int)
    requires
        0 <= k < attrs.len(),
    ensures
        attrs_bits(attrs.take(k + 1)) == attrs_bits(attrs.take(k)) + fyve_text_bits(
            attrs[k].0,
        ) + text_chunk_bits(attrs[k].1),
{
    assert(attrs.take(k + 1).drop_last() =~= attrs.take(k));
    assert(attrs.take(k + 1).last() == attrs[k]);
}

/// Appends the low `n` bits of a value to a plain bit vector.
fn push_field(out: &mut Vec<bool>, data: u32, n: u8)
    requires
        n <= 32,
    ensures
        final(out)@ == old(out)@ + field_bits(data as nat, n as nat),
{
    let ghost start = out@;
    let mut i: u8 = n;
    while i > 0
        invariant
            i <= n <= 32,
            out@ == start + field_bits(data as nat, n as nat).take((n - i) as int),
        decreases i,
    {
        i = i - 1;
        let bit = ((data >> (i as u32)) & 1) == 1;
        proof {
            crate::bits::lemma_shr_bit_of(data, i as u32);
            assert(field_bits(data as nat, n as nat)[n - 1 - i] == bit_of(data as nat, i as nat));
            assert(field_bits(data as nat, n as nat).take((n - i) as int) =~= field_bits(
                data as nat,
                n as nat,
            ).take((n - 1 - i) as int).push(bit));
        }
        out.push(bit);
    }
    proof {
        assert(field_bits(data as nat, n as nat).take(n as int) =~= field_bits(
            data as nat,
            n as nat,
        ));
    }
}

/// Appends whole bytes to a plain bit vector.
fn push_bytes(out: &mut Vec<bool>, bytes: &Vec<u8>)
    ensures
        final(out)@ == old(out)@ + bytes_to_bits(bytes@),
{
    let ghost start = out@;
    let mut k: usize = 0;
    while k < bytes.len()
        invariant
            k <= bytes@.len(),
            out@ == start + bytes_to_bits(bytes@.take(k as int)),
        decreases bytes@.len() - k,
    {
        proof {
            assert(bytes@.take(k + 1).drop_last() =~= bytes@.take(k as int));
        }
        push_field(out, bytes[k] as u32, 8);
        k = k + 1;
    }
    proof {
        assert(bytes@.take(bytes@.len() as int) =~= bytes@);
    }
}

/// Appends a name in the fyve alphabet; an empty name or one outside the
/// alphabet is `BadRequest` (code 400).
fn emit_fyve_text(out: &mut Vec<bool>, s: &str) -> (r: Result<(), Error>)
    ensures
        r is Ok <==> name_wf(s@),
        r is Ok ==> final(out)@ == old(out)@ + fyve_text_bits(s@),
        r is Err ==> r->Err_0.code == 400 && r->Err_0.kind is BadRequest,
{
    let n = s.unicode_len();
    if n == 0 {
        return Err(Error {
            code: 400,
            message: String::from_str("Empty text"),
            kind: ErrorKind::BadRequest,
        });
    }
    let ghost start = out@;
    let mut i: usize = 0;
    while i < n
        invariant
            i <= n,
            n == s@.len(),
            out@ == start + fyve_text_bits(s@.take(i as int)),
            forall|t: int| 0 <= t < i ==> crate::fyve::char_code(#[trigger] s@[t]) is Some,
        decreases n - i,
    {
        let c = s.get_char(i);
        proof {
            lemma_fyve_text_prefix(s@, i as int);
        }
        match FyveImpl::get_fyve(c) {
            Some((code, width)) => {
                proof {
                    crate::fyve::lemma_item_bits_len(crate::fyve::FyveItem::Symbol(c));
                    assert(char_bits(c).len() == width as int);
                }
                push_field(out, code, width);
            },
            None => {
                return Err(Error {
                    code: 400,
                    message: String::from_str("Invalid character"),
                    kind: ErrorKind::BadRequest,
                });
            },
        }
        i = i + 1;
    }
    proof {
        assert(s@.take(n as int) =~= s@);
    }
    Ok(())
}

/// Appends a raw text run; a text whose bytes overflow the 15-bit length
/// field is `BadRequest` (code 400).
fn emit_text_chunk(out: &mut Vec<bool>, s: &str) -> (r: Result<(), Error>)
    ensures
        r is Ok <==> text_wf(s@),
        r is Ok ==> final(out)@ == old(out)@ + text_chunk_bits(s@),
        r is Err ==> r->Err_0.code == 400 && r->Err_0.kind is BadRequest,
{
    let bytes = s.as_bytes_vec();
    if bytes.len() >= 0x8000 {
        return Err(Error {
            code: 400,
            message: String::from_str("Text too long"),
            kind: ErrorKind::BadRequest,
        });
    }
    push_field(out, 0, 10);
    push_field(out, bytes.len() as u32, 15);
    push_bytes(out, &bytes);
    proof {
        assert(final(out)@ =~= old(out)@ + text_chunk_bits(s@));
    }
    Ok(())
}

/// Appends one whole element; the element must be well formed.
fn emit_tag(out: &mut Vec<bool>, t: &HtmlTag) -> (r: Result<(), Error>)
    ensures
        r is Ok <==> tag_wf(t@),
        r is Ok ==> final(out)@ == old(out)@ + tag_bits(t@),
        r is Err ==> r->Err_0.code == 400 && r->Err_0.kind is BadRequest,
    decreases *t,
{
    push_field(out, 16, 10);
    match emit_fyve_text(out, t.name.as_str()) {
        Ok(_) => {},
        Err(e) => {
            return Err(e);
        },
    }
    if t.attributes.len() > 0 {
        push_field(out, 17, 10);
        let ghost before_attrs = out@;
        let mut a: usize = 0;
        while a < t.attributes.len()
            invariant
                a <= t.attributes@.len(),
                out@ == before_attrs + attrs_bits(t@.attributes.take(a as int)),
                forall|x: int| 0 <= x < a ==> name_wf((#[trigger] t@.attributes[x]).0)
                    && text_wf(t@.attributes[x].1),
                t@.attributes.len() == t.attributes@.len(),
            decreases t.attributes@.len() - a,
        {
            proof {
                lemma_attrs_bits_prefix(t@.attributes, a as int);
                assert(t@.attributes[a as int] == (t.attributes@[a as int].0@, t.attributes@[
                    a as int
                ].1@));
            }
            match emit_fyve_text(out, t.attributes[a].0.as_str()) {
                Ok(_) => {},
                Err(e) => {
                    return Err(e);
                },
            }
            match emit_text_chunk(out, t.attributes[a].1.as_str()) {
                Ok(_) => {},
                Err(e) => {
                    return Err(e);
                },
            }
            a = a + 1;
        }
        proof {
            assert(t@.attributes.take(t@.attributes.len() as int) =~= t@.attributes);
        }
    }
    push_field(out, 24, 10);
    proof {
        crate::html::lemma_contents_view(t.data@);
    }
    let ghost before_children = out@;
    let mut k: usize = 0;
    while k < t.data.len()
        invariant
            k <= t.data@.len(),
            out@ == before_children + contents_bits(t@.name, t@.children.take(k as int)),
            forall|x: int| 0 <= x < k ==> content_wf(t@.name, #[trigger] t@.children[x]),
            t@.children.len() == t.data@.len(),
            t@.name == t.name@,
            t@.children == contents_view(t.data@),
        decreases t.data@.len() - k,
    {
        proof {
            crate::html::lemma_contents_view(t.data@);
            lemma_contents_bits_prefix(t@.name, t@.children, k as int);
            lemma_contents_wf_index(t@.name, t@.children);
            assert(t@.children[k as int] == (t.data@[k as int])@);
        }
        match &t.data[k] {
            HtmlContent::Text(s) => {
                proof {
                    reveal_strlit("pre");
                }
                if s.as_str().unicode_len() > 0 && !crate::text::str_eq(
                    t.name.as_str(),
                    "pre",
                ) {
                    proof {
                        assert((t.data@[k as int])@ == ContentView::Text(s@));
                        if "pre"@ == t.name@ {
                            assert(t@.name == "pre"@);
                        }
                        assert(t@.name != seq!['p', 'r', 'e'] ==> content_bits(
                            t@.name,
                            t@.children[k as int],
                        ) == text_chunk_bits(s@));
                        assert("pre"@ =~= seq!['p', 'r', 'e']);
                    }
                    match emit_text_chunk(out, s.as_str()) {
                        Ok(_) => {},
                        Err(e) => {
                            return Err(e);
                        },
                    }
                } else {
                    proof {
                        assert("pre"@ =~= seq!['p', 'r', 'e']);
                        assert(content_bits(t@.name, t@.children[k as int])
                            == Seq::<bool>::empty());
                        assert(out@ + Seq::<bool>::empty() =~= out@);
                        assert(content_wf(t@.name, t@.children[k as int]));
                    }
                }
            },
            HtmlContent::Child(child) => {
                match emit_tag(out, child) {
                    Ok(_) => {},
                    Err(e) => {
                        return Err(e);
                    },
                }
            },
        }
        k = k + 1;
    }
    proof {
        assert(t@.children.take(t@.children.len() as int) =~= t@.children);
        lemma_contents_wf_index(t@.name, t@.children);
    }
    push_field(out, 25, 10);
    proof {
        assert(final(out)@ =~= old(out)@ + tag_bits(t@));
    }
    Ok(())
}

/// Sends a document: the file's base name as zero-terminated UTF-8 bytes,
/// then the document tree as a fyve operation stream.
#[derive(Debug)]
pub struct HtmlFileResponse {
    /// The payload buffer.
    pub encoder: BitEncoder,
    /// The file's base name.
    pub name: String,
    /// The document tree to emit.
    pub root: HtmlTag,
}

impl HtmlFileResponse {
    /// Creates the response with an empty `Lsb0` payload buffer.
    pub fn new(name: String, root: HtmlTag) -> (r: HtmlFileResponse)
        ensures
            r.encoder@ == Seq::<bool>::empty(),
            r.encoder.order == BitOrder::Lsb0,
            r.name == name,
            r.root == root,
    {
        HtmlFileResponse { encoder: BitEncoder::new(BitOrder::Lsb0), name, root }
    }
}

impl EventEncoder for HtmlFileResponse {
    open spec fn event_id(&self) -> u16 {
        0x0001
    }

    open spec fn buffer(&self) -> Seq<bool> {
        self.encoder@
    }

    open spec fn encodes_ok(&self) -> bool {
        self.encoder@.len() + 8 * encode_utf8(self.name@).len() + 8 <= max_bits() && tag_wf(
            self.root@,
        )
    }

    open spec fn payload(&self) -> Seq<bool> {
        bytes_to_bits(encode_utf8(self.name@)) + field_bits(0, 8) + tag_bits(self.root@)
    }

    fn get_event(&self) -> (e: u16) {
        0x0001
    }

    fn get_encoder(&self) -> (enc: &BitEncoder) {
        &self.encoder
    }

    fn encode(&mut self) -> (r: Result<(), Error>) {
        proof {
            crate::encoder::lemma_bytes_to_bits_len(encode_utf8(self.name@));
        }
        let bytes = self.name.as_str().as_bytes_vec();
        match self.encoder.add_bytes(bytes.as_slice()) {
            Ok(_) => {},
            Err(e) => {
                return Err(e);
            },
        }
        match self.encoder.add_data(0, 8) {
            Ok(_) => {},
            Err(e) => {
                return Err(e);
            },
        }
        let mut bits: Vec<bool> = Vec::new();
        match emit_tag(&mut bits, &self.root) {
            Ok(_) => {},
            Err(e) => {
                return Err(e);
            },
        }
        match self.encoder.add_bitvec(&bits) {
            Ok(_) => {},
            Err(e) => {
                return Err(e);
            },
        }
        proof {
            assert(self.encoder@ =~= old(self).encoder@ + old(self).payload());
        }
        Ok(())
    }
}

} // verus!
