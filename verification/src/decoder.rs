//! The cursor-based bit decoder and the frame decoder that splits a frame
//! into header fields and payload.

use vstd::arithmetic::power2::pow2;
use vstd::prelude::*;
use vstd::string::StringExecFns;

use crate::bits::{
    bit_of, bits_to_uint, field_bits, lemma_bits_to_uint_bound, lemma_field_bits_value, pack,
    pad8, unpack, BitOrder,
};
use crate::encoder::frame_bits;
use crate::errors::{Error, ErrorKind};

verus! {

/// A cursor over the bits of a received byte buffer.
///
/// The bytes are unfolded into single bits on construction, following the
/// decoder's bit order; reads consume bits from the cursor position.
#[derive(Debug)]
pub struct BitDecoder {
    /// The bits of the received frame.
    pub frame: Vec<bool>,
    /// The read cursor, in bits.
    pub position: usize,
    /// The bit order the bytes were unfolded with.
    pub order: BitOrder,
}

impl View for BitDecoder {
    type V = Seq<bool>;

    open spec fn view(&self) -> Seq<bool> {
        self.frame@
    }
}

impl Clone for BitDecoder {
    /// Clones the decoder, bits and cursor alike.
    fn clone(&self) -> (r: Self)
        ensures
            r@ == self@ && r.position == self.position && r.order == self.order,
    {
        let mut bits: Vec<bool> = Vec::new();
        let mut k: usize = 0;
        while k < self.frame.len()
            invariant
                k <= self.frame@.len(),
                bits@ == self.frame@.take(k as int),
            decreases self.frame@.len() - k,
        {
            bits.push(self.frame[k]);
            proof {
                assert(self.frame@.take(k as int).push(self.frame@[k as int]) =~= self.frame@.take(
                    k + 1,
                ));
            }
            k = k + 1;
        }
        proof {
            assert(self.frame@.take(self.frame@.len() as int) =~= self.frame@);
        }
        BitDecoder { frame: bits, position: self.position, order: self.order }
    }
}

impl BitDecoder {
    /// Unfolds received bytes into a bit cursor under the given order.
    pub fn new(frame: Vec<u8>, order: BitOrder) -> (r: BitDecoder)
        ensures
            r@ == unpack(order, frame@),
            r.position == 0,
            r.order == order,
    {
        let mut bits: Vec<bool> = Vec::new();
        let mut j: usize = 0;
        while j < frame.len()
            invariant
                j <= frame@.len(),
                bits@.len() == 8 * j,
                forall|k: int| 0 <= k < 8 * j ==> bits@[k] == unpack(order, frame@)[k],
            decreases frame@.len() - j,
        {
            let byte = frame[j];
            let mut i: usize = 0;
            while i < 8
                invariant
                    i <= 8,
                    j < frame@.len(),
                    byte == frame@[j as int],
                    bits@.len() == 8 * j + i,
                    forall|k: int| 0 <= k < 8 * j + i ==> bits@[k] == unpack(order, frame@)[k],
                decreases 8 - i,
            {
                let shift: u8 = match order {
                    BitOrder::Msb0 => 7 - i as u8,
                    BitOrder::Lsb0 => i as u8,
                };
                let bit = ((byte >> shift) & 1) == 1;
                proof {
                    lemma_u8_shr_bit_of(byte, shift);
                    let k = 8 * (j as int) + i;
                    vstd::arithmetic::div_mod::lemma_fundamental_div_mod_converse(
                        k,
                        8,
                        j as int,
                        i as int,
                    );
                    assert(unpack(order, frame@)[k] == bit);
                }
                bits.push(bit);
                i = i + 1;
            }
            j = j + 1;
        }
        proof {
            assert(bits@ =~= unpack(order, frame@));
        }
        BitDecoder { frame: bits, position: 0, order }
    }

    /// Consumes the next `n` bits and returns their value, first-consumed
    /// bit as the most significant.
    ///
    /// Fails with `SizeConstraintViolation` (code `0b1000`) exactly when
    /// fewer than `n` bits remain; the cursor then does not move.
    pub fn read_data(&mut self, n: u8) -> (r: Result<u32, Error>)
        requires
            n <= 32,
        ensures
            r is Ok <==> old(self).position + n as nat <= old(self)@.len(),
            r is Ok ==> r->Ok_0 as nat == bits_to_uint(
                old(self)@.subrange(
                    old(self).position as int,
                    old(self).position + n as nat,
                ),
            ) && final(self).position == old(self).position + n as nat,
            r is Err ==> final(self).position == old(self).position,
            r is Err ==> r->Err_0.code == 0b1000 && r->Err_0.kind is SizeConstraintViolation,
            final(self)@ == old(self)@,
            final(self).order == old(self).order,
    {
        if n as u64 > self.frame.len() as u64 || self.position as u64 > self.frame.len() as u64
            - n as u64 {
            return Err(Error {
                code: 0b1000,
                message: String::from_str("Out of bound"),
                kind: ErrorKind::SizeConstraintViolation,
            });
        }
        let flen = self.frame.len();
        let ghost target = self.frame@.subrange(
            self.position as int,
            self.position + n as nat,
        );
        let ghost start = self.position as int;
        let mut data: u32 = 0;
        let mut i: u8 = 0;
        proof {
            vstd::arithmetic::power2::lemma2_to64();
        }
        while i < n
            invariant
                i <= n <= 32,
                0 <= start,
                start + n <= self.frame@.len(),
                self.frame@ == old(self)@,
                self.order == old(self).order,
                self.frame@.len() == flen,
                self.position == start + i,
                target == self.frame@.subrange(start, start + n as nat),
                data as nat == bits_to_uint(target.take(i as int)),
                data < pow2(i as nat),
            decreases n - i,
        {
            proof {
                vstd::arithmetic::power2::lemma2_to64();
                assert(target.take(i + 1).drop_last() =~= target.take(i as int));
            }
            let bit = self.frame[self.position];
            data = data * 2 + (if bit {
                1
            } else {
                0
            });
            self.position = self.position + 1;
            i = i + 1;
        }
        proof {
            assert(target.take(n as int) =~= target);
        }
        Ok(data)
    }

    /// Materialises the bits of `[from, to)` without moving the cursor.
    ///
    /// Fails with `SizeConstraintViolation` (code `0b1100`) exactly when the
    /// range does not lie inside the buffer.
    pub fn read_vec(&self, from: usize, to: usize) -> (r: Result<Vec<bool>, Error>)
        ensures
            r is Ok <==> from <= to <= self@.len(),
            r is Ok ==> r->Ok_0@ == self@.subrange(from as int, to as int),
            r is Err ==> r->Err_0.code == 0b1100 && r->Err_0.kind is SizeConstraintViolation,
    {
        if from > to || to > self.frame.len() {
            return Err(Error {
                code: 0b1100,
                message: String::from_str("Out of bound"),
                kind: ErrorKind::SizeConstraintViolation,
            });
        }
        let mut out: Vec<bool> = Vec::new();
        let mut k: usize = from;
        while k < to
            invariant
                from <= k <= to <= self.frame@.len(),
                out@ == self.frame@.subrange(from as int, k as int),
            decreases to - k,
        {
            out.push(self.frame[k]);
            proof {
                assert(self.frame@.subrange(from as int, k as int).push(self.frame@[k as int])
                    =~= self.frame@.subrange(from as int, k + 1));
            }
            k = k + 1;
        }
        Ok(out)
    }

    /// The read cursor, in bits from the start of the frame.
    pub fn get_position(&self) -> (r: usize)
        ensures
            r == self.position,
    {
        self.position
    }
}

/// A parsed frame: the three header fields and the payload bits.
#[derive(Debug)]
pub struct Frame {
    /// The wire version byte.
    pub version: u8,
    /// The event id.
    pub event: u16,
    /// The payload length in bits.
    pub data_size: u32,
    /// The payload bits.
    pub data: Vec<bool>,
}

/// The version field of a frame bit sequence.
pub open spec fn header_version(bits: Seq<bool>) -> nat {
    bits_to_uint(bits.subrange(0, 8))
}

/// The event field of a frame bit sequence.
pub open spec fn header_event(bits: Seq<bool>) -> nat {
    bits_to_uint(bits.subrange(8, 24))
}

/// The data-size field of a frame bit sequence.
pub open spec fn header_size(bits: Seq<bool>) -> nat {
    bits_to_uint(bits.subrange(24, 56))
}

/// Whether a bit sequence holds a whole frame: the 56-bit header and as
/// many payload bits as the size field declares.
pub open spec fn frame_parses(bits: Seq<bool>) -> bool {
    bits.len() >= 56 && 56 + header_size(bits) <= bits.len()
}

/// The payload bits that the size field delimits.
pub open spec fn frame_payload(bits: Seq<bool>) -> Seq<bool> {
    bits.subrange(56, 56 + header_size(bits) as int)
}

/// Splits a received frame into its header fields and payload.
pub struct FrameDecoder {
    /// The bit cursor over the received frame.
    pub decoder: BitDecoder,
}

impl FrameDecoder {
    /// Wraps a bit cursor positioned at the start of a frame.
    pub fn new(decoder: BitDecoder) -> (r: FrameDecoder)
        ensures
            r.decoder == decoder,
    {
        FrameDecoder { decoder }
    }

    /// The inner cursor; after [`FrameDecoder::decode`] it rests at the
    /// start of the payload.
    pub fn get_decoder(&self) -> (r: &BitDecoder)
        ensures
            *r == self.decoder,
    {
        &self.decoder
    }

    /// Reads version, event and data size, then slices the payload.
    ///
    /// Fails with `SizeConstraintViolation` exactly when a read would cross
    /// the end of the buffer: code `0b1000` if the header itself does not
    /// fit, else code `0b1100` for a payload cut short.
    pub fn decode(&mut self) -> (r: Result<Frame, Error>)
        requires
            old(self).decoder.position == 0,
        ensures
            r is Ok <==> frame_parses(old(self).decoder@),
            r is Ok ==> {
                let f = r->Ok_0;
                &&& f.version as nat == header_version(old(self).decoder@)
                &&& f.event as nat == header_event(old(self).decoder@)
                &&& f.data_size as nat == header_size(old(self).decoder@)
                &&& f.data@ == frame_payload(old(self).decoder@)
                &&& final(self).decoder.position == 56
            },
            r is Err ==> r->Err_0.kind is SizeConstraintViolation,
            final(self).decoder@ == old(self).decoder@,
            final(self).decoder.order == old(self).decoder.order,
    {
        proof {
            vstd::arithmetic::power2::lemma2_to64();
            lemma_bits_to_uint_bound(self.decoder.frame@.subrange(0, 8));
            lemma_bits_to_uint_bound(self.decoder.frame@.subrange(8, 24));
            lemma_bits_to_uint_bound(self.decoder.frame@.subrange(24, 56));
        }
        let version = match self.decoder.read_data(8) {
            Ok(v) => v as u8,
            Err(e) => {
                return Err(e);
            },
        };
        let event = match self.decoder.read_data(16) {
            Ok(v) => v as u16,
            Err(e) => {
                return Err(e);
            },
        };
        let data_size = match self.decoder.read_data(32) {
            Ok(v) => v,
            Err(e) => {
                return Err(e);
            },
        };
        let flen = self.decoder.frame.len();
        if data_size as u64 > usize::MAX as u64 - 56 {
            return Err(Error {
                code: 0b1100,
                message: String::from_str("Out of bound"),
                kind: ErrorKind::SizeConstraintViolation,
            });
        }
        let data = match self.decoder.read_vec(56, 56 + data_size as usize) {
            Ok(v) => v,
            Err(e) => {
                return Err(e);
            },
        };
        Ok(Frame { version, event, data_size, data })
    }
}

/// Header round trip: a frame assembled for a known version from a payload
/// of 8 to under `2^32` bits, packed to wire bytes in `Lsb0` order and read
/// back in `Msb0` order, parses to the same version, event and payload; only
/// the byte-alignment padding is added.
pub proof fn lemma_frame_roundtrip(version: u8, event: u16, payload: Seq<bool>)
    requires
        version == 1,
        8 <= payload.len() < 0x1_0000_0000,
    ensures
        ({
            let wire = pack(
                BitOrder::Lsb0,
                frame_bits(version as nat, event as nat, payload),
            );
            let bits = unpack(BitOrder::Msb0, wire);
            &&& frame_parses(bits)
            &&& header_version(bits) == version as nat
            &&& header_event(bits) == event as nat
            &&& header_size(bits) == payload.len()
            &&& frame_payload(bits) == payload
        }),
{
    let fb = frame_bits(version as nat, event as nat, payload);
    let wire = pack(BitOrder::Lsb0, fb);
    let bits = unpack(BitOrder::Msb0, wire);
    crate::bits::lemma_pack_unpack(BitOrder::Lsb0, fb);
    assert(bits =~= pad8(fb));
    vstd::arithmetic::power2::lemma2_to64();
    assert(fb.len() == 56 + payload.len());
    assert(bits.subrange(0, 8) =~= field_bits(version as nat, 8));
    assert(bits.subrange(8, 24) =~= field_bits(event as nat, 16));
    assert(bits.subrange(24, 56) =~= field_bits(payload.len() % crate::encoder::max_bits(), 32));
    lemma_field_bits_value(version as nat, 8);
    lemma_field_bits_value(event as nat, 16);
    lemma_field_bits_value(payload.len() % crate::encoder::max_bits(), 32);
    assert(header_size(bits) == payload.len());
    assert(frame_payload(bits) =~= payload);
}


/// The value of the eight bits at byte offset `j` from `pos`.
pub open spec fn byte_at(bits: Seq<bool>, pos: int, j: int) -> nat {
    bits_to_uint(bits.subrange(pos + 8 * j, pos + 8 * j + 8))
}

/// The `count` bytes spelled by the bits from `pos` on.
pub open spec fn bytes_at(bits: Seq<bool>, pos: int, count: int) -> Seq<u8> {
    Seq::new(count as nat, |j: int| byte_at(bits, pos, j) as u8)
}

/// How many non-zero bytes stand before the next zero byte at `pos`, when
/// the buffer holds one.
pub open spec fn cstr_len(bits: Seq<bool>, pos: int) -> Option<int>
    decreases bits.len() - pos,
{
    if pos < 0 || pos + 8 > bits.len() {
        None
    } else if byte_at(bits, pos, 0) == 0 {
        Some(0)
    } else {
        match cstr_len(bits, pos + 8) {
            Some(k) => Some(k + 1),
            None => None,
        }
    }
}

impl BitDecoder {
    /// Consumes `count` whole bytes.
    ///
    /// Fails with `SizeConstraintViolation` (code `0b1000`) exactly when
    /// fewer than `8 * count` bits remain.
    pub fn read_bytes(&mut self, count: usize) -> (r: Result<Vec<u8>, Error>)
        ensures
            r is Ok <==> old(self).position + 8 * count as nat <= old(self)@.len(),
            r is Ok ==> r->Ok_0@ == bytes_at(
                old(self)@,
                old(self).position as int,
                count as int,
            ) && final(self).position == old(self).position + 8 * count as nat,
            r is Err ==> r->Err_0.code == 0b1000 && r->Err_0.kind is SizeConstraintViolation,
            final(self)@ == old(self)@,
            final(self).order == old(self).order,
    {
        let flen = self.frame.len();
        if count as u64 >= 0x2000_0000_0000_0000u64 || self.position as u64 > flen as u64 || 8u64
            * (count as u64) > flen as u64 - self.position as u64 {
            return Err(Error {
                code: 0b1000,
                message: String::from_str("Out of bound"),
                kind: ErrorKind::SizeConstraintViolation,
            });
        }
        let ghost start = self.position as int;
        let mut out: Vec<u8> = Vec::new();
        let mut j: usize = 0;
        while j < count
            invariant
                j <= count,
                self.position == start + 8 * j,
                start + 8 * count <= self.frame@.len(),
                self.frame@ == old(self)@,
                self.order == old(self).order,
                out@.len() == j as int,
                forall|t: int| 0 <= t < j ==> out@[t] == bytes_at(
                    self.frame@,
                    start,
                    count as int,
                )[t],
            decreases count - j,
        {
            proof {
                lemma_bits_to_uint_bound(self.frame@.subrange(start + 8 * j, start + 8 * j + 8));
                vstd::arithmetic::power2::lemma2_to64();
            }
            let b = match self.read_data(8) {
                Ok(v) => v as u8,
                Err(e) => {
                    return Err(e);
                },
            };
            out.push(b);
            j = j + 1;
        }
        proof {
            assert(out@ =~= bytes_at(self.frame@, start, count as int));
        }
        Ok(out)
    }

    /// Consumes bytes up to and including the next zero byte and returns
    /// the bytes before it.
    ///
    /// Fails with `SizeConstraintViolation` (code `0b1000`) exactly when
    /// the bits run out before a zero byte.
    pub fn read_until_zero(&mut self) -> (r: Result<Vec<u8>, Error>)
        ensures
            r is Ok <==> cstr_len(old(self)@, old(self).position as int) is Some,
            r is Ok ==> ({
                let k = cstr_len(old(self)@, old(self).position as int)->Some_0;
                &&& r->Ok_0@ == bytes_at(old(self)@, old(self).position as int, k)
                &&& final(self).position == old(self).position + 8 * k + 8
            }),
            r is Err ==> r->Err_0.code == 0b1000 && r->Err_0.kind is SizeConstraintViolation,
            final(self)@ == old(self)@,
            final(self).order == old(self).order,
    {
        let ghost start = self.position as int;
        let ghost whole = self.frame@;
        let mut out: Vec<u8> = Vec::new();
        loop
            invariant
                self.frame@ == whole,
                whole == old(self)@,
                self.order == old(self).order,
                self.position == start + 8 * out@.len(),
                start == old(self).position as int,
                start >= 0,
                out@ == bytes_at(whole, start, out@.len() as int),
                forall|t: int| 0 <= t < out@.len() ==> out@[t] != 0,
                (match cstr_len(whole, start + 8 * out@.len()) {
                    Some(k) => cstr_len(whole, start) == Some(k + out@.len()),
                    None => cstr_len(whole, start) is None,
                }),
            decreases whole.len() - self.position,
        {
            let ghost j = out@.len() as int;
            match self.read_data(8) {
                Err(e) => {
                    proof {
                        assert(cstr_len(whole, start + 8 * j) is None);
                    }
                    return Err(e);
                },
                Ok(v) => {
                    proof {
                        lemma_bits_to_uint_bound(
                            whole.subrange(start + 8 * j, start + 8 * j + 8),
                        );
                        vstd::arithmetic::power2::lemma2_to64();
                        assert(v as nat == byte_at(whole, start + 8 * j, 0));
                    }
                    let b = v as u8;
                    if b == 0 {
                        proof {
                            assert(cstr_len(whole, start + 8 * j) == Some(0int));
                        }
                        return Ok(out);
                    }
                    out.push(b);
                    proof {
                        assert(out@ =~= bytes_at(whole, start, out@.len() as int));
                        assert(cstr_len(whole, start + 8 * j) == (match cstr_len(
                            whole,
                            start + 8 * j + 8,
                        ) {
                            Some(k) => Some(k + 1),
                            None => None::<int>,
                        }));
                    }
                },
            }
        }
    }
}

/// Links the executable bit test on a byte to [`bit_of`].
pub proof fn lemma_u8_shr_bit_of(x: u8, i: u8)
    requires
        i < 8,
    ensures
        ((x >> i) & 1 == 1) == bit_of(x as nat, i as nat),
{
    vstd::bits::lemma_u8_shr_is_div(x, i);
    let y = x >> i;
    assert(y & 1 == y % 2) by (bit_vector);
}

} // verus!
