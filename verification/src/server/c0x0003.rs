//! Event `0x0003`, server side: the component-needs response.

use vstd::prelude::*;
use vstd::string::StrSliceExecFns;
use vstd::utf8::encode_utf8;

use crate::bits::{bytes_to_bits, field_bits, BitOrder};
use crate::encoder::{max_bits, BitEncoder, EventEncoder};
use crate::errors::Error;

verus! {

/// The bits of the optional title: a zero separator, then its UTF-8 bytes.
pub open spec fn title_bits(title: Option<String>) -> Seq<bool> {
    match title {
        Some(t) => field_bits(0, 8) + bytes_to_bits(encode_utf8(t@)),
        None => Seq::empty(),
    }
}

/// The bits of the file list: a zero separator before each name, or one
/// `0x01` byte when the list is empty.
pub open spec fn files_bits(files: Seq<Seq<char>>) -> Seq<bool> {
    if files.len() == 0 {
        field_bits(1, 8)
    } else {
        files_cat(files)
    }
}

/// The separated file names, in order.
pub open spec fn files_cat(files: Seq<Seq<char>>) -> Seq<bool>
    decreases files.len(),
{
    if files.len() == 0 {
        Seq::empty()
    } else {
        files_cat(files.drop_last()) + field_bits(0, 8) + bytes_to_bits(
            encode_utf8(files.last()),
        )
    }
}

/// Answers a component request with the component name, its optional
/// title, and the base names of its files.
#[derive(Debug)]
pub struct ComponentNeedsResponse {
    /// The payload buffer.
    pub encoder: BitEncoder,
    /// The component the response describes.
    pub component_name: String,
    /// The component's title, if it has one.
    pub title: Option<String>,
    /// The base names of the files that follow in separate responses.
    pub files: Vec<String>,
}

impl ComponentNeedsResponse {
    /// Creates the response with an empty `Lsb0` payload buffer.
    pub fn new(component_name: String, title: Option<String>, files: Vec<String>) -> (r:
        ComponentNeedsResponse)
        ensures
            r.encoder@ == Seq::<bool>::empty(),
            r.encoder.order == BitOrder::Lsb0,
            r.component_name == component_name,
            r.title == title,
            r.files == files,
    {
        ComponentNeedsResponse {
            encoder: BitEncoder::new(BitOrder::Lsb0),
            component_name,
            title,
            files,
        }
    }
}

impl EventEncoder for ComponentNeedsResponse {
    open spec fn event_id(&self) -> u16 {
        0x0003
    }

    open spec fn buffer(&self) -> Seq<bool> {
        self.encoder@
    }

    open spec fn encodes_ok(&self) -> bool {
        self.encoder@.len() + self.payload().len() <= max_bits()
    }

    open spec fn payload(&self) -> Seq<bool> {
        bytes_to_bits(encode_utf8(self.component_name@)) + title_bits(self.title) + files_bits(
            self.files.deep_view(),
        )
    }

    fn get_event(&self) -> (e: u16) {
        0x0003
    }

    fn get_encoder(&self) -> (enc: &BitEncoder) {
        &self.encoder
    }

    fn encode(&mut self) -> (r: Result<(), Error>) {
        proof {
            crate::encoder::lemma_bytes_to_bits_len(encode_utf8(self.component_name@));
            if self.title is Some {
                crate::encoder::lemma_bytes_to_bits_len(encode_utf8(self.title->Some_0@));
            }
        }
        let bytes = self.component_name.as_str().as_bytes_vec();
        match self.encoder.add_bytes(bytes.as_slice()) {
            Ok(_) => {},
            Err(e) => {
                return Err(e);
            },
        }
        match &self.title {
            Some(title) => {
                match self.encoder.add_data(0, 8) {
                    Ok(_) => {},
                    Err(e) => {
                        return Err(e);
                    },
                }
                let tbytes = title.as_str().as_bytes_vec();
                match self.encoder.add_bytes(tbytes.as_slice()) {
                    Ok(_) => {},
                    Err(e) => {
                        return Err(e);
                    },
                }
            },
            None => {},
        }
        let ghost mid = self.encoder@;
        if self.files.len() > 0 {
            let mut k: usize = 0;
            while k < self.files.len()
                invariant
                    k <= self.files@.len(),
                    self.files@.len() > 0,
                    self.files == old(self).files,
                    self.component_name == old(self).component_name,
                    self.title == old(self).title,
                    self.encoder.order == old(self).encoder.order,
                    mid == old(self).encoder@ + bytes_to_bits(
                        encode_utf8(old(self).component_name@),
                    ) + title_bits(old(self).title),
                    self.encoder@ == mid + files_cat(self.files.deep_view().take(k as int)),
                    self.encoder@.len() <= max_bits(),
                decreases self.files@.len() - k,
            {
                let ghost full = self.files.deep_view();
                proof {
                    lemma_files_cat_prefix(full, k as int);
                    lemma_files_cat_prefix_le(full, k + 1);
                    crate::encoder::lemma_bytes_to_bits_len(encode_utf8(full[k as int]));
                    assert(full[k as int] == self.files@[k as int]@);
                    assert(files_bits(full) == files_cat(full));
                }
                match self.encoder.add_data(0, 8) {
                    Ok(_) => {},
                    Err(e) => {
                        return Err(e);
                    },
                }
                let fbytes = self.files[k].as_str().as_bytes_vec();
                match self.encoder.add_bytes(fbytes.as_slice()) {
                    Ok(_) => {},
                    Err(e) => {
                        return Err(e);
                    },
                }
                k = k + 1;
            }
            proof {
                assert(self.files.deep_view().take(self.files.deep_view().len() as int)
                    =~= self.files.deep_view());
                assert(files_bits(old(self).files.deep_view()) == files_cat(
                    old(self).files.deep_view(),
                ));
                assert(self.encoder@ =~= old(self).encoder@ + (bytes_to_bits(
                    encode_utf8(old(self).component_name@),
                ) + title_bits(old(self).title) + files_bits(old(self).files.deep_view())));
            }
            Ok(())
        } else {
            proof {
                assert(files_bits(self.files.deep_view()) == field_bits(1, 8));
            }
            let res = self.encoder.add_data(1, 8);
            match res {
                Ok(_) => {
                    proof {
                        assert(self.encoder@ =~= old(self).encoder@ + (bytes_to_bits(
                            encode_utf8(old(self).component_name@),
                        ) + title_bits(old(self).title) + files_bits(
                            old(self).files.deep_view(),
                        )));
                    }
                    Ok(())
                },
                Err(e) => Err(e),
            }
        }
    }
}

/// A prefix of the file list is a prefix of the separated bits.
proof fn lemma_files_cat_prefix(files: Seq<Seq<char>>, k: int)
    requires
        0 <= k < files.len(),
    ensures
        files_cat(files.take(k + 1)) == files_cat(files.take(k)) + field_bits(0, 8)
            + bytes_to_bits(encode_utf8(files[k])),
{
    assert(files.take(k + 1).drop_last() =~= files.take(k));
    assert(files.take(k + 1).last() == files[k]);
}

/// The separated bits of a prefix are never longer than those of the
/// whole list.
proof fn lemma_files_cat_prefix_le(files: Seq<Seq<char>>, k: int)
    requires
        0 <= k <= files.len(),
    ensures
        files_cat(files.take(k)).len() <= files_cat(files).len(),
    decreases files.len() - k,
{
    if k < files.len() {
        lemma_files_cat_prefix_le(files, k + 1);
        lemma_files_cat_prefix(files, k);
    } else {
        assert(files.take(files.len() as int) =~= files);
    }
}

} // verus!
