//! The bit-level model of the wire format: bit-order policy, the value of a
//! bit field, and the packing of a bit sequence into wire octets.
//!
//! Every codec contract in this crate is stated over these functions: a
//! buffer is a `Seq<bool>`, a field of `n` bits holds the value
//! [`bits_to_uint`] gives it, and [`pack`] / [`unpack`] fix how a buffer
//! becomes wire bytes and back under each [`BitOrder`].

use vstd::arithmetic::div_mod::{
    lemma_div_denominator, lemma_fundamental_div_mod, lemma_fundamental_div_mod_converse,
};
use vstd::arithmetic::power2::{lemma_pow2_adds, lemma_pow2_pos, lemma_pow2_unfold, pow2};
use vstd::bits::lemma_u32_shr_is_div;
use vstd::prelude::*;

verus! {

/// The within-byte bit-ordering policy of a codec object.
///
/// Incoming frames are parsed in `Msb0`; outgoing frames are emitted from an
/// `Lsb0` buffer. A response produced by a request decoder is emitted in the
/// opposite order of that decoder.
#[derive(Clone, Copy, PartialEq, Eq, Structural, Debug)]
pub enum BitOrder {
    /// Most-significant-bit-first packing.
    Msb0,
    /// Least-significant-bit-first packing.
    Lsb0,
}

impl BitOrder {
    /// The opposite policy.
    pub open spec fn opposite_spec(&self) -> BitOrder {
        match self {
            BitOrder::Msb0 => BitOrder::Lsb0,
            BitOrder::Lsb0 => BitOrder::Msb0,
        }
    }

    /// Returns the opposite policy: `Msb0` and `Lsb0` swap.
    pub fn opposite(&self) -> (r: BitOrder)
        ensures
            r == self.opposite_spec(),
    {
        match self {
            BitOrder::Msb0 => BitOrder::Lsb0,
            BitOrder::Lsb0 => BitOrder::Msb0,
        }
    }
}

/// Bit `k` of the value `v`, counting from the least significant bit.
pub open spec fn bit_of(v: nat, k: nat) -> bool {
    (v / pow2(k)) % 2 == 1
}

/// The low `n` bits of `v` as a bit sequence, most significant bit first.
///
/// This is the order in which an integer field is appended to a buffer,
/// whatever the buffer's bit order.
pub open spec fn field_bits(v: nat, n: nat) -> Seq<bool> {
    Seq::new(n, |i: int| bit_of(v, (n - 1 - i) as nat))
}

/// The unsigned value of a bit sequence whose first bit is the most
/// significant.
pub open spec fn bits_to_uint(s: Seq<bool>) -> nat
    decreases s.len(),
{
    if s.len() == 0 {
        0
    } else {
        2 * bits_to_uint(s.drop_last()) + (if s.last() {
            1nat
        } else {
            0nat
        })
    }
}

/// The bit sequence of a byte sequence: eight bits per byte, most
/// significant bit of each byte first.
pub open spec fn bytes_to_bits(bs: Seq<u8>) -> Seq<bool>
    decreases bs.len(),
{
    if bs.len() == 0 {
        Seq::empty()
    } else {
        bytes_to_bits(bs.drop_last()) + field_bits(bs.last() as nat, 8)
    }
}

/// The sequence read back to front.
pub open spec fn seq_rev<A>(s: Seq<A>) -> Seq<A> {
    Seq::new(s.len(), |i: int| s[s.len() - 1 - i])
}

/// How many zero bits pad a buffer of `n` bits to the next byte boundary.
pub open spec fn pad_len(n: nat) -> nat {
    (((8 - (n % 8)) % 8) as nat)
}

/// The buffer extended with zero bits to a multiple of eight.
pub open spec fn pad8(s: Seq<bool>) -> Seq<bool> {
    s + Seq::new(pad_len(s.len()), |i: int| false)
}

/// The eight bits that wire byte `j` of a packed buffer carries, in buffer
/// order.
pub open spec fn pack_chunk(s: Seq<bool>, j: int) -> Seq<bool> {
    pad8(s).subrange(8 * j, 8 * j + 8)
}

/// The wire bytes of a buffer under the given bit order.
///
/// An `Lsb0` buffer is emitted with its first bit as the most significant
/// bit of each byte; an `Msb0` buffer is emitted with the bits of each byte
/// reversed. Two buffers with the same bits but opposite orders therefore
/// produce byte-wise bit-reversed wire output.
pub open spec fn pack(order: BitOrder, s: Seq<bool>) -> Seq<u8> {
    Seq::new(
        (pad8(s).len() / 8) as nat,
        |j: int|
            match order {
                BitOrder::Lsb0 => bits_to_uint(pack_chunk(s, j)) as u8,
                BitOrder::Msb0 => bits_to_uint(seq_rev(pack_chunk(s, j))) as u8,
            },
    )
}

/// The bit sequence that a decoder of the given order reads from wire bytes.
pub open spec fn unpack(order: BitOrder, bytes: Seq<u8>) -> Seq<bool> {
    Seq::new(
        8 * bytes.len(),
        |k: int|
            match order {
                BitOrder::Msb0 => field_bits(bytes[k / 8] as nat, 8)[k % 8],
                BitOrder::Lsb0 => field_bits(bytes[k / 8] as nat, 8)[7 - k % 8],
            },
    )
}

/// The value of a bit sequence is below two to its length.
pub proof fn lemma_bits_to_uint_bound(s: Seq<bool>)
    ensures
        bits_to_uint(s) < pow2(s.len()),
    decreases s.len(),
{
    if s.len() == 0 {
        assert(pow2(0) == 1) by {
            lemma_pow2_unfold(1);
            lemma_pow2_pos(0);
            assert(pow2(1) == 2 * pow2(0));
            vstd::arithmetic::power2::lemma2_to64();
        }
    } else {
        lemma_bits_to_uint_bound(s.drop_last());
        lemma_pow2_unfold(s.len());
    }
}

/// Bits above the first of a field are the bits of the halved value.
pub proof fn lemma_bit_of_half(v: nat, k: nat)
    requires
        k >= 1,
    ensures
        bit_of(v, k) == bit_of(v / 2, (k - 1) as nat),
{
    lemma_pow2_unfold(k);
    lemma_pow2_pos((k - 1) as nat);
    lemma_div_denominator(v as int, 2, pow2((k - 1) as nat) as int);
}

/// Reading a field back gives the appended value, reduced modulo the field
/// width.
pub proof fn lemma_field_bits_value(v: nat, n: nat)
    ensures
        bits_to_uint(field_bits(v, n)) == v % pow2(n),
    decreases n,
{
    if n == 0 {
        lemma_pow2_unfold(1);
        lemma_pow2_pos(0);
        assert(pow2(0) == 1) by {
            vstd::arithmetic::power2::lemma2_to64();
        }
        assert(v % 1 == 0) by {
            lemma_fundamental_div_mod(v as int, 1);
        }
    } else {
        lemma_field_bits_value(v / 2, (n - 1) as nat);
        assert forall|i: int| 0 <= i < n - 1 implies field_bits(v, n).drop_last()[i] == field_bits(
            v / 2,
            (n - 1) as nat,
        )[i] by {
            lemma_bit_of_half(v, (n - 1 - i) as nat);
        }
        assert(field_bits(v, n).drop_last() =~= field_bits(v / 2, (n - 1) as nat));
        assert(field_bits(v, n).last() == bit_of(v, 0));
        assert(pow2(0) == 1) by {
            vstd::arithmetic::power2::lemma2_to64();
        }
        assert(v / pow2(0) == v) by {
            vstd::arithmetic::div_mod::lemma_div_basics(v as int);
        }
        assert(bit_of(v, 0) == (v % 2 == 1));
        let m = pow2((n - 1) as nat) as int;
        lemma_pow2_pos((n - 1) as nat);
        lemma_pow2_unfold(n);
        let q = v as int / 2;
        let r = v as int % 2;
        lemma_fundamental_div_mod(v as int, 2);
        lemma_fundamental_div_mod(q, m);
        assert(0 <= q % m < m) by {
            vstd::arithmetic::div_mod::lemma_mod_bound(q, m);
        }
        assert(v as int == (2 * m) * (q / m) + (2 * (q % m) + r)) by (nonlinear_arith)
            requires
                v as int == 2 * q + r,
                q == m * (q / m) + q % m,
        ;
        lemma_fundamental_div_mod_converse(v as int, 2 * m, q / m, 2 * (q % m) + r);
        assert(bits_to_uint(field_bits(v, n)) == 2 * ((v / 2) % pow2((n - 1) as nat)) + (if bit_of(
            v,
            0,
        ) {
            1nat
        } else {
            0nat
        }));
    }
}

/// A bit sequence of width at most 32 is recovered from its value.
pub proof fn lemma_uint_to_bits_id(s: Seq<bool>)
    ensures
        field_bits(bits_to_uint(s), s.len()) =~= s,
    decreases s.len(),
{
    let n = s.len();
    if n > 0 {
        let a = bits_to_uint(s.drop_last());
        let b: nat = if s.last() {
            1
        } else {
            0
        };
        let v = bits_to_uint(s);
        assert(v == 2 * a + b);
        lemma_uint_to_bits_id(s.drop_last());
        assert(v / 2 == a && v % 2 == b) by {
            lemma_fundamental_div_mod_converse(v as int, 2, a as int, b as int);
        }
        assert(pow2(0) == 1) by {
            vstd::arithmetic::power2::lemma2_to64();
        }
        assert(v / pow2(0) == v) by {
            vstd::arithmetic::div_mod::lemma_div_basics(v as int);
        }
        assert(field_bits(v, n)[n - 1] == bit_of(v, 0));
        assert(bit_of(v, 0) == (b == 1));
        assert forall|i: int| 0 <= i < n - 1 implies field_bits(v, n)[i] == s[i] by {
            lemma_bit_of_half(v, (n - 1 - i) as nat);
            assert(field_bits(a, (n - 1) as nat)[i] == s.drop_last()[i]);
        }
    }
}

/// Packing a buffer and reading the bytes back in the opposite order yields
/// the buffer, followed by its byte-boundary padding.
pub proof fn lemma_pack_unpack(order: BitOrder, s: Seq<bool>)
    ensures
        unpack(order.opposite_spec(), pack(order, s)) =~= pad8(s),
{
    let padded = pad8(s);
    let bytes = pack(order, s);
    assert(padded.len() % 8 == 0);
    assert(8 * bytes.len() == padded.len());
    assert forall|k: int| 0 <= k < padded.len() implies unpack(order.opposite_spec(), bytes)[k]
        == padded[k] by {
        let j = k / 8;
        let i = k % 8;
        lemma_fundamental_div_mod(k, 8);
        let chunk = pack_chunk(s, j);
        assert(chunk.len() == 8);
        assert(chunk[i] == padded[k]);
        lemma_bits_to_uint_bound(chunk);
        lemma_bits_to_uint_bound(seq_rev(chunk));
        assert(pow2(8) == 256) by {
            vstd::arithmetic::power2::lemma2_to64();
        }
        match order {
            BitOrder::Lsb0 => {
                assert(bytes[j] as nat == bits_to_uint(chunk));
                lemma_uint_to_bits_id(chunk);
                assert(field_bits(bytes[j] as nat, 8)[i] == chunk[i]);
            },
            BitOrder::Msb0 => {
                assert(bytes[j] as nat == bits_to_uint(seq_rev(chunk)));
                lemma_uint_to_bits_id(seq_rev(chunk));
                assert(field_bits(bytes[j] as nat, 8)[7 - i] == seq_rev(chunk)[7 - i]);
                assert(seq_rev(chunk)[7 - i] == chunk[i]);
            },
        }
    }
}

/// Two encoders fed the same bits but opposite orders produce wire bytes
/// that are byte-wise bit-reversed of one another.
pub proof fn lemma_opposite_orders_bit_reversed(s: Seq<bool>, j: int)
    requires
        0 <= j < pack(BitOrder::Lsb0, s).len(),
    ensures
        pack(BitOrder::Msb0, s).len() == pack(BitOrder::Lsb0, s).len(),
        field_bits(pack(BitOrder::Msb0, s)[j] as nat, 8) == seq_rev(
            field_bits(pack(BitOrder::Lsb0, s)[j] as nat, 8),
        ),
{
    let chunk = pack_chunk(s, j);
    lemma_bits_to_uint_bound(chunk);
    lemma_bits_to_uint_bound(seq_rev(chunk));
    vstd::arithmetic::power2::lemma2_to64();
    lemma_uint_to_bits_id(chunk);
    lemma_uint_to_bits_id(seq_rev(chunk));
    assert(field_bits(pack(BitOrder::Msb0, s)[j] as nat, 8) =~= seq_rev(
        field_bits(pack(BitOrder::Lsb0, s)[j] as nat, 8),
    ));
}

/// Links the executable bit test to the arithmetic definition [`bit_of`].
pub proof fn lemma_shr_bit_of(x: u32, i: u32)
    requires
        i < 32,
    ensures
        ((x >> i) & 1 == 1) == bit_of(x as nat, i as nat),
{
    lemma_u32_shr_is_div(x, i);
    let y = x >> i;
    assert(y & 1 == y % 2) by (bit_vector);
}

} // verus!
