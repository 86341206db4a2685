//! The append-only bit encoder and the frame encoder that wraps a payload
//! in the 56-bit header.

use vstd::arithmetic::power2::pow2;
use vstd::prelude::*;
use vstd::string::StringExecFns;

use crate::bits::{
    bit_of, bits_to_uint, bytes_to_bits, field_bits, lemma_bits_to_uint_bound,
    lemma_field_bits_value, lemma_shr_bit_of, pack, pack_chunk, pad8, pad_len, seq_rev, BitOrder,
};
use crate::errors::{Error, ErrorKind};
use crate::versions::Version;

verus! {

/// An append-only buffer of bits with a bit-order policy.
///
/// `add_data` appends the low `n` bits of a value, most significant bit
/// first, whatever the order; the order only decides how [`BitEncoder::encode`]
/// packs the bits into wire bytes.
#[derive(Debug)]
pub struct BitEncoder {
    /// The bits appended so far, in order of appension.
    pub frame: Vec<bool>,
    /// The bit-order policy used when packing into bytes.
    pub order: BitOrder,
}

impl View for BitEncoder {
    type V = Seq<bool>;

    open spec fn view(&self) -> Seq<bool> {
        self.frame@
    }
}

/// The largest number of bits a frame may carry: the size field is 32 bits.
pub open spec fn max_bits() -> nat {
    0x1_0000_0000
}

impl BitEncoder {
    /// Creates an empty encoder with the given bit order.
    pub fn new(order: BitOrder) -> (r: BitEncoder)
        ensures
            r@ == Seq::<bool>::empty(),
            r.order == order,
    {
        BitEncoder { frame: Vec::new(), order }
    }

    /// Appends the low `n` bits of `data`, most significant first.
    ///
    /// Fails with `SizeConstraintViolation` (code `0b1000`) when the buffer
    /// would grow past `2^32` bits or when `n > 32`; the buffer is then left
    /// unchanged.
    pub fn add_data(&mut self, data: u32, n: u8) -> (r: Result<(), Error>)
        ensures
            r is Ok <==> (old(self)@.len() + n as nat <= max_bits() && n <= 32),
            r is Ok ==> final(self)@ == old(self)@ + field_bits(data as nat, n as nat),
            r is Err ==> final(self)@ == old(self)@,
            r is Err ==> r->Err_0.code == 0b1000 && r->Err_0.kind is SizeConstraintViolation,
            final(self).order == old(self).order,
    {
        if self.frame.len() as u64 > 0x1_0000_0000u64 || self.frame.len() as u64 + (n as u64)
            > 0x1_0000_0000u64 {
            return Err(Error {
                code: 0b1000,
                message: String::from_str("Maximum of 2^32 bits allowed"),
                kind: ErrorKind::SizeConstraintViolation,
            });
        }
        if n > 32 {
            return Err(Error {
                code: 0b1000,
                message: String::from_str("Data of more than 32 bits long are not allowed"),
                kind: ErrorKind::SizeConstraintViolation,
            });
        }
        let ghost start = self.frame@;
        let mut i: u8 = n;
        while i > 0
            invariant
                i <= n <= 32,
                self.order == old(self).order,
                self.frame@ == start + field_bits(data as nat, n as nat).take((n - i) as int),
            decreases i,
        {
            i = i - 1;
            let bit = ((data >> (i as u32)) & 1) == 1;
            proof {
                lemma_shr_bit_of(data, i as u32);
                assert(field_bits(data as nat, n as nat)[n - 1 - i] == bit_of(
                    data as nat,
                    i as nat,
                ));
                assert(field_bits(data as nat, n as nat).take((n - i) as int) =~= field_bits(
                    data as nat,
                    n as nat,
                ).take((n - 1 - i) as int).push(bit));
            }
            self.frame.push(bit);
        }
        proof {
            assert(field_bits(data as nat, n as nat).take(n as int) =~= field_bits(
                data as nat,
                n as nat,
            ));
        }
        Ok(())
    }

    /// Appends each byte of the slice as eight bits, most significant first.
    ///
    /// Fails with `SizeConstraintViolation` when the buffer would grow past
    /// `2^32` bits; the buffer is then left unchanged.
    pub fn add_bytes(&mut self, bytes: &[u8]) -> (r: Result<(), Error>)
        ensures
            r is Ok <==> old(self)@.len() + 8 * bytes@.len() <= max_bits(),
            r is Ok ==> final(self)@ == old(self)@ + bytes_to_bits(bytes@),
            r is Err ==> final(self)@ == old(self)@,
            r is Err ==> r->Err_0.code == 0b1000 && r->Err_0.kind is SizeConstraintViolation,
            final(self).order == old(self).order,
    {
        if self.frame.len() as u64 > 0x1_0000_0000u64 || bytes.len() as u64 > 0x2000_0000u64
            || self.frame.len() as u64 + 8u64 * (bytes.len() as u64) > 0x1_0000_0000u64 {
            return Err(Error {
                code: 0b1000,
                message: String::from_str("Maximum of 2^32 bits allowed"),
                kind: ErrorKind::SizeConstraintViolation,
            });
        }
        let ghost start = self.frame@;
        let mut k: usize = 0;
        while k < bytes.len()
            invariant
                k <= bytes@.len(),
                start.len() + 8 * bytes@.len() <= max_bits(),
                self.frame@ == start + bytes_to_bits(bytes@.take(k as int)),
                self.order == old(self).order,
            decreases bytes@.len() - k,
        {
            proof {
                lemma_bytes_to_bits_len(bytes@.take(k as int));
            }
            let b = bytes[k];
            match self.add_data(b as u32, 8) {
                Ok(_) => {},
                Err(e) => {
                    return Err(e);
                },
            }
            proof {
                assert(bytes@.take(k + 1).drop_last() =~= bytes@.take(k as int));
                assert(bytes_to_bits(bytes@.take(k + 1)) == bytes_to_bits(bytes@.take(k as int))
                    + field_bits(bytes@[k as int] as nat, 8));
            }
            k = k + 1;
        }
        proof {
            assert(bytes@.take(bytes@.len() as int) =~= bytes@);
        }
        Ok(())
    }

    /// Appends every bit of the given bit sequence, in order.
    pub fn add_bitvec(&mut self, bitvec: &Vec<bool>) -> (r: Result<(), Error>)
        ensures
            r is Ok,
            final(self)@ == old(self)@ + bitvec@,
            final(self).order == old(self).order,
    {
        let ghost start = self.frame@;
        let mut k: usize = 0;
        while k < bitvec.len()
            invariant
                k <= bitvec@.len(),
                self.frame@ == start + bitvec@.take(k as int),
                self.order == old(self).order,
            decreases bitvec@.len() - k,
        {
            let b = bitvec[k];
            self.frame.push(b);
            proof {
                assert(start + bitvec@.take(k as int) + seq![b] =~= start + bitvec@.take(k + 1));
            }
            k = k + 1;
        }
        proof {
            assert(start + bitvec@.take(bitvec@.len() as int) =~= start + bitvec@);
        }
        Ok(())
    }

    /// Appends the whole content of another encoder.
    pub fn append_data_from(&mut self, encoder: &BitEncoder)
        ensures
            final(self)@ == old(self)@ + encoder@,
            final(self).order == old(self).order,
    {
        let ghost start = self.frame@;
        let mut k: usize = 0;
        while k < encoder.frame.len()
            invariant
                k <= encoder.frame@.len(),
                self.frame@ == start + encoder.frame@.take(k as int),
                self.order == old(self).order,
            decreases encoder.frame@.len() - k,
        {
            let b = encoder.frame[k];
            self.frame.push(b);
            proof {
                assert(start + encoder.frame@.take(k as int) + seq![b] =~= start
                    + encoder.frame@.take(k + 1));
            }
            k = k + 1;
        }
        proof {
            assert(start + encoder.frame@.take(encoder.frame@.len() as int) =~= start
                + encoder.frame@);
        }
    }

    /// Packs the buffer into wire bytes under the encoder's bit order,
    /// padding the last byte with zero bits.
    pub fn encode(&self) -> (r: Vec<u8>)
        ensures
            r@ == pack(self.order, self@),
    {
        proof {
            lemma_pad8_len(self.frame@);
        }
        let len = self.frame.len();
        let n_bytes = len / 8 + (if len % 8 != 0 {
            1usize
        } else {
            0usize
        });
        let mut out: Vec<u8> = Vec::new();
        let mut j: usize = 0;
        while j < n_bytes
            invariant
                j <= n_bytes,
                8 * n_bytes == pad8(self.frame@).len(),
                len == self.frame@.len(),
                out@.len() == j as int,
                forall|t: int| 0 <= t < j ==> out@[t] == pack(self.order, self.frame@)[t],
            decreases n_bytes - j,
        {
            proof {
                vstd::arithmetic::power2::lemma2_to64();
            }
            let ghost chunk = pack_chunk(self.frame@, j as int);
            let ghost goal = match self.order {
                BitOrder::Lsb0 => chunk,
                BitOrder::Msb0 => seq_rev(chunk),
            };
            let mut byte: u16 = 0;
            let mut i: usize = 0;
            while i < 8
                invariant
                    i <= 8,
                    j < n_bytes,
                    8 * n_bytes == pad8(self.frame@).len(),
                    len == self.frame@.len(),
                    chunk == pack_chunk(self.frame@, j as int),
                    goal == (match self.order {
                        BitOrder::Lsb0 => chunk,
                        BitOrder::Msb0 => seq_rev(chunk),
                    }),
                    byte as nat == bits_to_uint(goal.take(i as int)),
                    byte < pow2(i as nat),
                decreases 8 - i,
            {
                let idx = match self.order {
                    BitOrder::Lsb0 => 8 * j + i,
                    BitOrder::Msb0 => 8 * j + 7 - i,
                };
                let bit = if idx < len {
                    self.frame[idx]
                } else {
                    false
                };
                proof {
                    vstd::arithmetic::power2::lemma2_to64();
                    assert(goal.take(i + 1).drop_last() =~= goal.take(i as int));
                    assert(goal[i as int] == pad8(self.frame@)[8 * (j as int) + (match self.order {
                        BitOrder::Lsb0 => i as int,
                        BitOrder::Msb0 => 7 - i as int,
                    })]);
                }
                byte = byte * 2 + (if bit {
                    1
                } else {
                    0
                });
                i = i + 1;
            }
            proof {
                assert(goal.take(8) =~= goal);
                lemma_bits_to_uint_bound(goal);
                vstd::arithmetic::power2::lemma2_to64();
            }
            out.push(byte as u8);
            j = j + 1;
        }
        proof {
            assert(out@ =~= pack(self.order, self.frame@));
        }
        out
    }
}

/// The number of bits of a byte sequence is eight per byte.
pub proof fn lemma_bytes_to_bits_len(bs: Seq<u8>)
    ensures
        bytes_to_bits(bs).len() == 8 * bs.len(),
    decreases bs.len(),
{
    if bs.len() > 0 {
        lemma_bytes_to_bits_len(bs.drop_last());
    }
}

/// A padded buffer is the next multiple of eight bits long.
proof fn lemma_pad8_len(s: Seq<bool>)
    ensures
        pad8(s).len() == 8 * (s.len() / 8 + (if s.len() % 8 != 0 {
            1int
        } else {
            0int
        })),
        pad8(s).len() % 8 == 0,
{
    vstd::arithmetic::div_mod::lemma_fundamental_div_mod(s.len() as int, 8);
}

/// What an event payload encoder promises: an event id, a bit buffer, and
/// the payload bits it appends when serialisation succeeds.
///
/// The frame layer is verified against exactly these clauses; every event
/// type of this crate implements them with a proved body.
pub trait EventEncoder: Sized {
    /// The event id this payload belongs to.
    spec fn event_id(&self) -> u16;

    /// The bits currently in the payload buffer.
    spec fn buffer(&self) -> Seq<bool>;

    /// Whether serialisation succeeds from the current state.
    spec fn encodes_ok(&self) -> bool;

    /// The bits that a successful serialisation appends.
    spec fn payload(&self) -> Seq<bool>;

    /// Returns the event id.
    fn get_event(&self) -> (e: u16)
        ensures
            e == self.event_id(),
    ;

    /// Returns the payload buffer.
    fn get_encoder(&self) -> (enc: &BitEncoder)
        ensures
            enc@ == self.buffer(),
    ;

    /// Serialises the event into its own buffer.
    fn encode(&mut self) -> (r: Result<(), Error>)
        ensures
            r is Ok <==> old(self).encodes_ok(),
            r is Ok ==> final(self).buffer() == old(self).buffer() + old(self).payload(),
            final(self).event_id() == old(self).event_id(),
    ;
}

/// The wire byte of a known version.
pub open spec fn version_byte(v: Version) -> nat {
    match v {
        Version::V1 => 1,
    }
}

/// The header and payload bits of a frame, before packing: version (8),
/// event (16), data size (32, reduced modulo `2^32`), then the payload.
pub open spec fn frame_bits(version: nat, event: nat, payload: Seq<bool>) -> Seq<bool> {
    field_bits(version, 8) + field_bits(event, 16) + field_bits(payload.len() % max_bits(), 32)
        + payload
}

/// Builds whole outgoing frames for one known wire version.
///
/// Frames are always emitted from an `Lsb0` buffer, so the first bit of the
/// frame is the most significant bit of the first wire byte.
#[derive(Debug)]
pub struct FrameEncoder {
    /// The buffer the frame is assembled in.
    pub encoder: BitEncoder,
    /// The version stamped on every frame.
    pub version: Version,
}

impl FrameEncoder {
    /// Creates a frame encoder for the given wire version byte.
    ///
    /// Rejects unknown versions with `UnknownVersion` (code `0b1010`).
    pub fn new(version: u8) -> (r: Result<FrameEncoder, Error>)
        ensures
            r is Ok <==> version == 1,
            r is Ok ==> r->Ok_0.encoder@ == Seq::<bool>::empty() && r->Ok_0.encoder.order
                == BitOrder::Lsb0 && r->Ok_0.version == Version::V1,
            r is Err ==> r->Err_0.code == 0b1010 && r->Err_0.kind is UnknownVersion,
    {
        match Version::from_u8(version) {
            Ok(v) => Ok(FrameEncoder { encoder: BitEncoder::new(BitOrder::Lsb0), version: v }),
            Err(e) => Err(e),
        }
    }

    /// Serialises an event and wraps it in a frame: version, event id, data
    /// size, payload, and zero bits up to the next byte boundary.
    ///
    /// Succeeds exactly when the event serialises and its payload holds
    /// between 8 and `2^32` bits; a payload under 8 bits is rejected with
    /// code `0b1001`, one over `2^32` bits with code `0b1000`, both
    /// `SizeConstraintViolation`.
    pub fn encode<E: EventEncoder>(&mut self, frame: &mut E) -> (r: Result<Vec<u8>, Error>)
        requires
            old(self).encoder@.len() == 0,
            old(self).encoder.order == BitOrder::Lsb0,
            old(frame).buffer().len() == 0,
        ensures
            r is Ok <==> old(frame).encodes_ok() && 8 <= old(frame).payload().len()
                <= max_bits(),
            r is Ok ==> r->Ok_0@ == pack(
                BitOrder::Lsb0,
                frame_bits(
                    version_byte(old(self).version),
                    old(frame).event_id() as nat,
                    old(frame).payload(),
                ),
            ),
            r is Err && old(frame).encodes_ok() ==> r->Err_0.kind
                is SizeConstraintViolation && r->Err_0.code == (if old(frame).payload().len() > max_bits() {
                0b1000int
            } else {
                0b1001int
            }),
    {
        match self.encoder.add_data(self.version.to_u8() as u32, 8) {
            Ok(_) => {},
            Err(e) => {
                return Err(e);
            },
        }
        match frame.encode() {
            Ok(_) => {},
            Err(e) => {
                return Err(e);
            },
        }
        let data_size = frame.get_encoder().frame.len();
        if data_size as u64 > 0x1_0000_0000u64 {
            return Err(Error {
                code: 0b1000,
                message: String::from_str("Maximum of 2^32 bits allowed"),
                kind: ErrorKind::SizeConstraintViolation,
            });
        }
        if data_size < 8 {
            return Err(Error {
                code: 0b1001,
                message: String::from_str("Minimum of 8 bits allowed"),
                kind: ErrorKind::SizeConstraintViolation,
            });
        }
        match self.encoder.add_data(frame.get_event() as u32, 16) {
            Ok(_) => {},
            Err(e) => {
                return Err(e);
            },
        }
        let size_field: u32 = if data_size as u64 == 0x1_0000_0000u64 {
            0u32
        } else {
            data_size as u32
        };
        match self.encoder.add_data(size_field, 32) {
            Ok(_) => {},
            Err(e) => {
                return Err(e);
            },
        }
        self.encoder.append_data_from(frame.get_encoder());
        let ghost assembled = self.encoder.frame@;
        proof {
            assert(version_byte(old(self).version) == 1);
            assert(assembled =~= frame_bits(
                version_byte(old(self).version),
                old(frame).event_id() as nat,
                old(frame).payload(),
            ));
        }
        let pad = (8 - self.encoder.frame.len() % 8) % 8;
        let mut t: usize = 0;
        while t < pad
            invariant
                t <= pad,
                pad == pad_len(assembled.len()),
                self.encoder.frame@ == assembled + Seq::new(t as nat, |x: int| false),
                self.encoder.order == BitOrder::Lsb0,
            decreases pad - t,
        {
            self.encoder.frame.push(false);
            proof {
                assert(assembled + Seq::new(t as nat, |x: int| false) + seq![false] =~= assembled
                    + Seq::new((t + 1) as nat, |x: int| false));
            }
            t = t + 1;
        }
        proof {
            assert(self.encoder.frame@ =~= pad8(assembled));
            lemma_pack_pad8(self.encoder.order, assembled);
        }
        Ok(self.encoder.encode())
    }
}

/// Packing a buffer already padded to a byte boundary packs the same bytes.
proof fn lemma_pack_pad8(order: BitOrder, s: Seq<bool>)
    ensures
        pack(order, pad8(s)) =~= pack(order, s),
{
    vstd::arithmetic::div_mod::lemma_fundamental_div_mod(s.len() as int, 8);
    assert(pad8(pad8(s)) =~= pad8(s));
    assert forall|j: int| 0 <= j < pad8(s).len() / 8 implies pack_chunk(pad8(s), j) == pack_chunk(
        s,
        j,
    ) by {
        assert(pack_chunk(pad8(s), j) =~= pack_chunk(s, j));
    }
    assert forall|j: int| 0 <= j < pad8(s).len() / 8 implies seq_rev(pack_chunk(pad8(s), j))
        == seq_rev(pack_chunk(s, j)) by {
        assert(seq_rev(pack_chunk(pad8(s), j)) =~= seq_rev(pack_chunk(s, j)));
    }
}

} // verus!
