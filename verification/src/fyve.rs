//! The fyve alphabet: a variable-length character code built from 5-bit
//! symbols, and the reader/emitter primitives over it.
//!
//! A character is one to four 5-bit chunks; every chunk before the last is
//! the continuation sentinel `0b11111`, and a leading chunk `0b00000`
//! announces a system operation code instead of a character.

use vstd::arithmetic::power2::pow2;
use vstd::prelude::*;
use vstd::string::StringExecFns;

use crate::bits::{bits_to_uint, field_bits, lemma_bit_of_half, lemma_field_bits_value};
use crate::decoder::BitDecoder;
use crate::errors::{Error, ErrorKind};

verus! {

/// The code of a character in the fyve alphabet, if the alphabet carries it.
pub open spec fn char_code(c: char) -> Option<u32> {
    match c {
            ' ' => Some(1u32),
            't' => Some(2u32),
            'a' => Some(3u32),
            'e' => Some(4u32),
            'i' => Some(5u32),
            'n' => Some(6u32),
            'o' => Some(7u32),
            'r' => Some(8u32),
            's' => Some(9u32),
            'd' => Some(10u32),
            'l' => Some(11u32),
            '-' => Some(12u32),
            '"' => Some(13u32),
            'c' => Some(14u32),
            'p' => Some(15u32),
            'f' => Some(16u32),
            '>' => Some(17u32),
            '=' => Some(18u32),
            '.' => Some(19u32),
            'v' => Some(20u32),
            '<' => Some(21u32),
            'u' => Some(22u32),
            'm' => Some(23u32),
            ';' => Some(24u32),
            'g' => Some(25u32),
            ':' => Some(26u32),
            '/' => Some(27u32),
            'h' => Some(28u32),
            'y' => Some(29u32),
            'x' => Some(30u32),
            'b' => Some(993u32),
            'k' => Some(994u32),
            ')' => Some(995u32),
            '(' => Some(996u32),
            'w' => Some(997u32),
            'E' => Some(998u32),
            '#' => Some(999u32),
            '}' => Some(1000u32),
            '{' => Some(1001u32),
            '0' => Some(1002u32),
            'N' => Some(1003u32),
            'A' => Some(1004u32),
            '2' => Some(1005u32),
            'R' => Some(1006u32),
            '1' => Some(1007u32),
            'T' => Some(1008u32),
            'D' => Some(1009u32),
            'O' => Some(1010u32),
            'I' => Some(1011u32),
            'S' => Some(1012u32),
            '_' => Some(1013u32),
            'P' => Some(1014u32),
            'L' => Some(1015u32),
            '6' => Some(1016u32),
            '4' => Some(1017u32),
            ',' => Some(1018u32),
            'z' => Some(1019u32),
            'M' => Some(1020u32),
            'C' => Some(1021u32),
            'B' => Some(1022u32),
            'G' => Some(32737u32),
            '%' => Some(32738u32),
            'j' => Some(32739u32),
            '3' => Some(32740u32),
            'U' => Some(32741u32),
            '8' => Some(32742u32),
            '*' => Some(32743u32),
            '5' => Some(32744u32),
            '9' => Some(32745u32),
            '+' => Some(32746u32),
            'F' => Some(32747u32),
            '|' => Some(32748u32),
            'W' => Some(32749u32),
            'V' => Some(32750u32),
            '@' => Some(32751u32),
            'q' => Some(32752u32),
            '\'' => Some(32753u32),
            'Q' => Some(32754u32),
            'H' => Some(32755u32),
            '!' => Some(32756u32),
            ']' => Some(32757u32),
            '[' => Some(32758u32),
            '7' => Some(32759u32),
            'Z' => Some(32760u32),
            'Y' => Some(32761u32),
            'X' => Some(32762u32),
            'J' => Some(32763u32),
            '^' => Some(32764u32),
            'K' => Some(32765u32),
            '?' => Some(32766u32),
            '$' => Some(1048545u32),
            '\\' => Some(1048546u32),
            '~' => Some(1048547u32),
            '`' => Some(1048548u32),
            '&' => Some(1048549u32),
            _ => None,
    }
}

/// The character a fyve code stands for, if any.
pub open spec fn code_char(v: u32) -> Option<char> {
    match v {
            1 => Some(' '),
            2 => Some('t'),
            3 => Some('a'),
            4 => Some('e'),
            5 => Some('i'),
            6 => Some('n'),
            7 => Some('o'),
            8 => Some('r'),
            9 => Some('s'),
            10 => Some('d'),
            11 => Some('l'),
            12 => Some('-'),
            13 => Some('"'),
            14 => Some('c'),
            15 => Some('p'),
            16 => Some('f'),
            17 => Some('>'),
            18 => Some('='),
            19 => Some('.'),
            20 => Some('v'),
            21 => Some('<'),
            22 => Some('u'),
            23 => Some('m'),
            24 => Some(';'),
            25 => Some('g'),
            26 => Some(':'),
            27 => Some('/'),
            28 => Some('h'),
            29 => Some('y'),
            30 => Some('x'),
            993 => Some('b'),
            994 => Some('k'),
            995 => Some(')'),
            996 => Some('('),
            997 => Some('w'),
            998 => Some('E'),
            999 => Some('#'),
            1000 => Some('}'),
            1001 => Some('{'),
            1002 => Some('0'),
            1003 => Some('N'),
            1004 => Some('A'),
            1005 => Some('2'),
            1006 => Some('R'),
            1007 => Some('1'),
            1008 => Some('T'),
            1009 => Some('D'),
            1010 => Some('O'),
            1011 => Some('I'),
            1012 => Some('S'),
            1013 => Some('_'),
            1014 => Some('P'),
            1015 => Some('L'),
            1016 => Some('6'),
            1017 => Some('4'),
            1018 => Some(','),
            1019 => Some('z'),
            1020 => Some('M'),
            1021 => Some('C'),
            1022 => Some('B'),
            32737 => Some('G'),
            32738 => Some('%'),
            32739 => Some('j'),
            32740 => Some('3'),
            32741 => Some('U'),
            32742 => Some('8'),
            32743 => Some('*'),
            32744 => Some('5'),
            32745 => Some('9'),
            32746 => Some('+'),
            32747 => Some('F'),
            32748 => Some('|'),
            32749 => Some('W'),
            32750 => Some('V'),
            32751 => Some('@'),
            32752 => Some('q'),
            32753 => Some('\''),
            32754 => Some('Q'),
            32755 => Some('H'),
            32756 => Some('!'),
            32757 => Some(']'),
            32758 => Some('['),
            32759 => Some('7'),
            32760 => Some('Z'),
            32761 => Some('Y'),
            32762 => Some('X'),
            32763 => Some('J'),
            32764 => Some('^'),
            32765 => Some('K'),
            32766 => Some('?'),
            1048545 => Some('$'),
            1048546 => Some('\\'),
            1048547 => Some('~'),
            1048548 => Some('`'),
            1048549 => Some('&'),
            _ => None,
    }
}

/// Looks a character up in the fyve alphabet.
pub fn fyve_code_of_char(c: char) -> (r: Option<u32>)
    ensures
        r == char_code(c),
{
    match c {
            ' ' => Some(1u32),
            't' => Some(2u32),
            'a' => Some(3u32),
            'e' => Some(4u32),
            'i' => Some(5u32),
            'n' => Some(6u32),
            'o' => Some(7u32),
            'r' => Some(8u32),
            's' => Some(9u32),
            'd' => Some(10u32),
            'l' => Some(11u32),
            '-' => Some(12u32),
            '"' => Some(13u32),
            'c' => Some(14u32),
            'p' => Some(15u32),
            'f' => Some(16u32),
            '>' => Some(17u32),
            '=' => Some(18u32),
            '.' => Some(19u32),
            'v' => Some(20u32),
            '<' => Some(21u32),
            'u' => Some(22u32),
            'm' => Some(23u32),
            ';' => Some(24u32),
            'g' => Some(25u32),
            ':' => Some(26u32),
            '/' => Some(27u32),
            'h' => Some(28u32),
            'y' => Some(29u32),
            'x' => Some(30u32),
            'b' => Some(993u32),
            'k' => Some(994u32),
            ')' => Some(995u32),
            '(' => Some(996u32),
            'w' => Some(997u32),
            'E' => Some(998u32),
            '#' => Some(999u32),
            '}' => Some(1000u32),
            '{' => Some(1001u32),
            '0' => Some(1002u32),
            'N' => Some(1003u32),
            'A' => Some(1004u32),
            '2' => Some(1005u32),
            'R' => Some(1006u32),
            '1' => Some(1007u32),
            'T' => Some(1008u32),
            'D' => Some(1009u32),
            'O' => Some(1010u32),
            'I' => Some(1011u32),
            'S' => Some(1012u32),
            '_' => Some(1013u32),
            'P' => Some(1014u32),
            'L' => Some(1015u32),
            '6' => Some(1016u32),
            '4' => Some(1017u32),
            ',' => Some(1018u32),
            'z' => Some(1019u32),
            'M' => Some(1020u32),
            'C' => Some(1021u32),
            'B' => Some(1022u32),
            'G' => Some(32737u32),
            '%' => Some(32738u32),
            'j' => Some(32739u32),
            '3' => Some(32740u32),
            'U' => Some(32741u32),
            '8' => Some(32742u32),
            '*' => Some(32743u32),
            '5' => Some(32744u32),
            '9' => Some(32745u32),
            '+' => Some(32746u32),
            'F' => Some(32747u32),
            '|' => Some(32748u32),
            'W' => Some(32749u32),
            'V' => Some(32750u32),
            '@' => Some(32751u32),
            'q' => Some(32752u32),
            '\'' => Some(32753u32),
            'Q' => Some(32754u32),
            'H' => Some(32755u32),
            '!' => Some(32756u32),
            ']' => Some(32757u32),
            '[' => Some(32758u32),
            '7' => Some(32759u32),
            'Z' => Some(32760u32),
            'Y' => Some(32761u32),
            'X' => Some(32762u32),
            'J' => Some(32763u32),
            '^' => Some(32764u32),
            'K' => Some(32765u32),
            '?' => Some(32766u32),
            '$' => Some(1048545u32),
            '\\' => Some(1048546u32),
            '~' => Some(1048547u32),
            '`' => Some(1048548u32),
            '&' => Some(1048549u32),
            _ => None,
    }
}

/// Looks a fyve code up in the alphabet.
pub fn fyve_char_of_code(v: u32) -> (r: Option<char>)
    ensures
        r == code_char(v),
{
    match v {
            1 => Some(' '),
            2 => Some('t'),
            3 => Some('a'),
            4 => Some('e'),
            5 => Some('i'),
            6 => Some('n'),
            7 => Some('o'),
            8 => Some('r'),
            9 => Some('s'),
            10 => Some('d'),
            11 => Some('l'),
            12 => Some('-'),
            13 => Some('"'),
            14 => Some('c'),
            15 => Some('p'),
            16 => Some('f'),
            17 => Some('>'),
            18 => Some('='),
            19 => Some('.'),
            20 => Some('v'),
            21 => Some('<'),
            22 => Some('u'),
            23 => Some('m'),
            24 => Some(';'),
            25 => Some('g'),
            26 => Some(':'),
            27 => Some('/'),
            28 => Some('h'),
            29 => Some('y'),
            30 => Some('x'),
            993 => Some('b'),
            994 => Some('k'),
            995 => Some(')'),
            996 => Some('('),
            997 => Some('w'),
            998 => Some('E'),
            999 => Some('#'),
            1000 => Some('}'),
            1001 => Some('{'),
            1002 => Some('0'),
            1003 => Some('N'),
            1004 => Some('A'),
            1005 => Some('2'),
            1006 => Some('R'),
            1007 => Some('1'),
            1008 => Some('T'),
            1009 => Some('D'),
            1010 => Some('O'),
            1011 => Some('I'),
            1012 => Some('S'),
            1013 => Some('_'),
            1014 => Some('P'),
            1015 => Some('L'),
            1016 => Some('6'),
            1017 => Some('4'),
            1018 => Some(','),
            1019 => Some('z'),
            1020 => Some('M'),
            1021 => Some('C'),
            1022 => Some('B'),
            32737 => Some('G'),
            32738 => Some('%'),
            32739 => Some('j'),
            32740 => Some('3'),
            32741 => Some('U'),
            32742 => Some('8'),
            32743 => Some('*'),
            32744 => Some('5'),
            32745 => Some('9'),
            32746 => Some('+'),
            32747 => Some('F'),
            32748 => Some('|'),
            32749 => Some('W'),
            32750 => Some('V'),
            32751 => Some('@'),
            32752 => Some('q'),
            32753 => Some('\''),
            32754 => Some('Q'),
            32755 => Some('H'),
            32756 => Some('!'),
            32757 => Some(']'),
            32758 => Some('['),
            32759 => Some('7'),
            32760 => Some('Z'),
            32761 => Some('Y'),
            32762 => Some('X'),
            32763 => Some('J'),
            32764 => Some('^'),
            32765 => Some('K'),
            32766 => Some('?'),
            1048545 => Some('$'),
            1048546 => Some('\\'),
            1048547 => Some('~'),
            1048548 => Some('`'),
            1048549 => Some('&'),
            _ => None,
    }
}

/// Whether a code belongs to one of the four strata of the alphabet.
pub open spec fn code_in_table(v: nat) -> bool {
    (1 <= v <= 30) || (993 <= v <= 1022) || (32737 <= v <= 32766) || (1048545 <= v <= 1048549)
}

/// The bit width a code is emitted with: one chunk of five bits per
/// stratum.
pub open spec fn code_width(v: nat) -> nat {
    if v < 32 {
        5
    } else if v < 1024 {
        10
    } else if v < 32768 {
        15
    } else {
        20
    }
}

/// The bits a character of the alphabet is emitted as.
pub open spec fn char_bits(c: char) -> Seq<bool>
    recommends
        char_code(c) is Some,
{
    field_bits(char_code(c)->Some_0 as nat, code_width(char_code(c)->Some_0 as nat))
}

/// Every code of the alphabet lies in a stratum, and the alphabet inverts:
/// the code of a character maps back to that character.
pub proof fn lemma_alphabet_inverse()
    ensures
        forall|c: char| #[trigger] char_code(c) is Some ==> code_in_table(
            char_code(c)->Some_0 as nat,
        ) && code_char(char_code(c)->Some_0) == Some(c),
        forall|v: u32| #[trigger] code_char(v) is Some ==> char_code(code_char(v)->Some_0)
            == Some(v),
{
}

/// Whether the first chunk of an operation is the system announcer.
#[derive(PartialEq, Eq, Structural, Clone, Copy, Debug)]
pub enum OperatingCode {
    /// The chunk `0b00000`: a system operation follows.
    System,
    /// Any other chunk: a character of the alphabet.
    Character,
}

impl OperatingCode {
    /// Classifies the first chunk of an operation.
    pub fn from(fy: &u8) -> (r: OperatingCode)
        ensures
            r == (if *fy == 0 {
                OperatingCode::System
            } else {
                OperatingCode::Character
            }),
    {
        match fy {
            0x0 => OperatingCode::System,
            _ => OperatingCode::Character,
        }
    }
}

/// The system operations that drive the document reconstructor.
#[derive(PartialEq, Eq, Structural, Clone, Copy, Debug)]
pub enum OperationCode {
    /// A raw UTF-8 run follows: 15 bits of byte length, then the bytes.
    Utf8Chain,
    /// An element name follows.
    StartOfTag,
    /// Attribute names and values follow.
    StartOfAttributes,
    /// The element content follows.
    StartOfData,
    /// The element is closed.
    EndOfData,
    /// Any other value: not a known operation.
    Unknown,
}

/// The operation a 5-bit system value selects.
pub open spec fn opcode_of(v: nat) -> OperationCode {
    if v == 0x00 {
        OperationCode::Utf8Chain
    } else if v == 0x10 {
        OperationCode::StartOfTag
    } else if v == 0x11 {
        OperationCode::StartOfAttributes
    } else if v == 0x18 {
        OperationCode::StartOfData
    } else if v == 0x19 {
        OperationCode::EndOfData
    } else {
        OperationCode::Unknown
    }
}

/// The 5-bit value of a system operation.
pub open spec fn op_value(o: OperationCode) -> nat {
    match o {
        OperationCode::Utf8Chain => 0x00,
        OperationCode::StartOfTag => 0x10,
        OperationCode::StartOfAttributes => 0x11,
        OperationCode::StartOfData => 0x18,
        OperationCode::EndOfData => 0x19,
        OperationCode::Unknown => 0x1f,
    }
}

impl OperationCode {
    /// Maps a 5-bit system value to its operation.
    pub fn from(fy: &u8) -> (r: OperationCode)
        ensures
            r == opcode_of(*fy as nat),
    {
        match fy {
            0x00 => OperationCode::Utf8Chain,
            0x10 => OperationCode::StartOfTag,
            0x11 => OperationCode::StartOfAttributes,
            0x18 => OperationCode::StartOfData,
            0x19 => OperationCode::EndOfData,
            _ => OperationCode::Unknown,
        }
    }
}

/// The value of the five bits starting at `pos`.
pub open spec fn fyve_at(bits: Seq<bool>, pos: int) -> nat {
    bits_to_uint(bits.subrange(pos, pos + 5))
}

/// How many bits one operation starting at `pos` consumes, if the buffer
/// holds them: 10 for a system operation, else 5 per chunk while the chunk
/// before is the continuation sentinel, at most 20.
pub open spec fn op_len_at(bits: Seq<bool>, pos: int) -> Option<int> {
    if pos < 0 || pos + 5 > bits.len() {
        None
    } else if fyve_at(bits, pos) == 0 {
        if pos + 10 <= bits.len() {
            Some(10)
        } else {
            None
        }
    } else if fyve_at(bits, pos) != 31 {
        Some(5)
    } else if pos + 10 > bits.len() {
        None
    } else if fyve_at(bits, pos + 5) != 31 {
        Some(10)
    } else if pos + 15 > bits.len() {
        None
    } else if fyve_at(bits, pos + 10) != 31 {
        Some(15)
    } else if pos + 20 <= bits.len() {
        Some(20)
    } else {
        None
    }
}

/// The value of `m` chunks read from `pos`, first chunk most significant.
pub open spec fn chunks_value(bits: Seq<bool>, pos: int, m: int) -> nat
    decreases m,
{
    if m <= 0 {
        0
    } else {
        chunks_value(bits, pos, m - 1) * 32 + fyve_at(bits, pos + 5 * (m - 1))
    }
}

/// One symbol of a fyve stream: a system operation or a character.
#[derive(PartialEq, Eq, Structural, Clone, Copy, Debug)]
pub enum FyveItem {
    /// A system operation.
    Control(OperationCode),
    /// A character of the alphabet.
    Symbol(char),
}

/// Whether an item can be emitted at all: a known operation, or a
/// character the alphabet carries.
pub open spec fn item_valid(it: FyveItem) -> bool {
    match it {
        FyveItem::Control(o) => !(o is Unknown),
        FyveItem::Symbol(c) => char_code(c) is Some,
    }
}

/// The bits an item is emitted as.
pub open spec fn item_bits(it: FyveItem) -> Seq<bool> {
    match it {
        FyveItem::Control(o) => field_bits(op_value(o), 10),
        FyveItem::Symbol(c) => char_bits(c),
    }
}

/// The bits of a whole item sequence.
pub open spec fn items_bits(items: Seq<FyveItem>) -> Seq<bool>
    decreases items.len(),
{
    if items.len() == 0 {
        Seq::empty()
    } else {
        item_bits(items[0]) + items_bits(items.drop_first())
    }
}

/// Reads one item at `pos`: `None` when bits run out or a character value
/// is not in the alphabet.
pub open spec fn read_item(bits: Seq<bool>, pos: int) -> Option<(FyveItem, int)> {
    match op_len_at(bits, pos) {
        None => None,
        Some(l) => {
            if fyve_at(bits, pos) == 0 {
                Some((FyveItem::Control(opcode_of(fyve_at(bits, pos + 5))), pos + 10))
            } else {
                match code_char(chunks_value(bits, pos, l / 5) as u32) {
                    Some(c) => Some((FyveItem::Symbol(c), pos + l)),
                    None => None,
                }
            }
        },
    }
}

/// Reads items from `pos` to the end of the buffer.
pub open spec fn parse_stream(bits: Seq<bool>, pos: int) -> Option<Seq<FyveItem>>
    decreases bits.len() - pos,
{
    if pos == bits.len() {
        Some(Seq::empty())
    } else if pos < 0 || pos > bits.len() {
        None
    } else {
        match read_item(bits, pos) {
            None => None,
            Some((it, p2)) => {
                if pos < p2 <= bits.len() {
                    match parse_stream(bits, p2) {
                        None => None,
                        Some(rest) => Some(seq![it] + rest),
                    }
                } else {
                    None
                }
            },
        }
    }
}

/// A bit of a field seen from a smaller field of its low bits.
proof fn lemma_bit_of_div(v: nat, m: nat, j: nat)
    ensures
        crate::bits::bit_of(v, m + j) == crate::bits::bit_of(v / pow2(m), j),
    decreases m,
{
    if m > 0 {
        lemma_bit_of_half(v, m + j);
        lemma_bit_of_div(v / 2, (m - 1) as nat, j);
        vstd::arithmetic::power2::lemma_pow2_unfold(m);
        vstd::arithmetic::power2::lemma_pow2_pos((m - 1) as nat);
        vstd::arithmetic::div_mod::lemma_div_denominator(
            v as int,
            2,
            pow2((m - 1) as nat) as int,
        );
    } else {
        vstd::arithmetic::power2::lemma2_to64();
        vstd::arithmetic::div_mod::lemma_div_basics(v as int);
    }
}

/// The value of chunk `t` of a `w`-bit field.
proof fn lemma_chunk_value(bits: Seq<bool>, pos: int, v: nat, w: nat, t: int)
    requires
        0 <= pos,
        0 <= t,
        5 * (t + 1) <= w,
        pos + w <= bits.len(),
        bits.subrange(pos, pos + w) == field_bits(v, w),
    ensures
        fyve_at(bits, pos + 5 * t) == (v / pow2((w - 5 * t - 5) as nat)) % 32,
{
    let m = (w - 5 * t - 5) as nat;
    let part = bits.subrange(pos + 5 * t, pos + 5 * t + 5);
    assert forall|i: int| 0 <= i < 5 implies part[i] == field_bits(v / pow2(m), 5)[i] by {
        assert(part[i] == field_bits(v, w)[5 * t + i]);
        lemma_bit_of_div(v, m, (4 - i) as nat);
        assert(m + ((4 - i) as nat) == w - 1 - (5 * t + i));
    }
    assert(part =~= field_bits(v / pow2(m), 5));
    lemma_field_bits_value(v / pow2(m), 5);
    vstd::arithmetic::power2::lemma2_to64();
}

/// Reading an emitted item from any position yields that item and consumes
/// exactly its bits.
pub proof fn lemma_read_item_at(bits: Seq<bool>, pos: int, it: FyveItem)
    requires
        item_valid(it),
        0 <= pos,
        pos + item_bits(it).len() <= bits.len(),
        bits.subrange(pos, pos + item_bits(it).len()) == item_bits(it),
    ensures
        read_item(bits, pos) == Some((it, pos + item_bits(it).len())),
{
    vstd::arithmetic::power2::lemma2_to64();
    lemma_alphabet_inverse();
    assert(chunks_value(bits, pos, 0) == 0);
    assert(chunks_value(bits, pos, 1) == chunks_value(bits, pos, 0) * 32 + fyve_at(bits, pos));
    assert(chunks_value(bits, pos, 2) == chunks_value(bits, pos, 1) * 32 + fyve_at(
        bits,
        pos + 5,
    ));
    assert(chunks_value(bits, pos, 3) == chunks_value(bits, pos, 2) * 32 + fyve_at(
        bits,
        pos + 10,
    ));
    assert(chunks_value(bits, pos, 4) == chunks_value(bits, pos, 3) * 32 + fyve_at(
        bits,
        pos + 15,
    ));
    match it {
        FyveItem::Control(o) => {
            let u = op_value(o);
            let w: nat = 10;
            assert(bits.subrange(pos, pos + 10) == field_bits(u, 10));
            lemma_chunk_value(bits, pos, u, w, 0);
            lemma_chunk_value(bits, pos, u, w, 1);
            assert(u / pow2(5) == 0 && u % 32 == u) by {
                vstd::arithmetic::div_mod::lemma_fundamental_div_mod_converse(
                    u as int,
                    32,
                    0,
                    u as int,
                );
            }
            vstd::arithmetic::div_mod::lemma_small_mod(u, 32);
            assert(pow2(0) == 1);
            vstd::arithmetic::div_mod::lemma_div_basics(u as int);
            assert(fyve_at(bits, pos) == 0);
            assert(fyve_at(bits, pos + 5) == u);
            assert(pow2(0) == 1) by {
                vstd::arithmetic::power2::lemma2_to64();
            }
            vstd::arithmetic::div_mod::lemma_div_basics(u as int);
            assert(opcode_of(u) == o);
        },
        FyveItem::Symbol(c) => {
            let v = char_code(c)->Some_0 as nat;
            let w = code_width(v);
            assert(code_in_table(v));
            assert(bits.subrange(pos, pos + w) == field_bits(v, w));
            if v <= 30 {
                lemma_chunk_value(bits, pos, v, w, 0);
                assert(pow2(0) == 1);
                vstd::arithmetic::div_mod::lemma_div_basics(v as int);
                assert(fyve_at(bits, pos) == v % 32);
                assert(v % 32 == v) by {
                    vstd::arithmetic::div_mod::lemma_small_mod(v, 32);
                }
                assert(op_len_at(bits, pos) == Some(5int));
                assert(chunks_value(bits, pos, 1) == v);
            } else if v <= 1022 {
                lemma_chunk_value(bits, pos, v, w, 0);
                lemma_chunk_value(bits, pos, v, w, 1);
                assert(pow2(0) == 1);
                vstd::arithmetic::div_mod::lemma_div_basics(v as int);
                assert(fyve_at(bits, pos) == (v / 32) % 32);
                assert(v / 32 == 31 && 1 <= v % 32 <= 30) by {
                    vstd::arithmetic::div_mod::lemma_fundamental_div_mod(v as int, 32);
                }
                assert(fyve_at(bits, pos) == 31);
                assert(fyve_at(bits, pos + 5) == v % 32);
                assert(op_len_at(bits, pos) == Some(10int));
                assert(chunks_value(bits, pos, 2) == 31 * 32 + v % 32);
                assert(31 * 32 + v % 32 == v) by {
                    vstd::arithmetic::div_mod::lemma_fundamental_div_mod(v as int, 32);
                }
            } else if v <= 32766 {
                lemma_chunk_value(bits, pos, v, w, 0);
                lemma_chunk_value(bits, pos, v, w, 1);
                lemma_chunk_value(bits, pos, v, w, 2);
                assert(pow2(0) == 1);
                vstd::arithmetic::div_mod::lemma_div_basics(v as int);
                assert(fyve_at(bits, pos) == (v / 1024) % 32);
                assert(fyve_at(bits, pos + 5) == (v / 32) % 32);
                assert(fyve_at(bits, pos + 10) == v % 32);
                assert(v / 1024 == 31 && v / 32 == 1023 && 1 <= v % 32 <= 30) by {
                    vstd::arithmetic::div_mod::lemma_fundamental_div_mod(v as int, 1024);
                    vstd::arithmetic::div_mod::lemma_fundamental_div_mod(v as int, 32);
                }
                assert((1023int) % 32 == 31);
                assert(op_len_at(bits, pos) == Some(15int));
                assert(chunks_value(bits, pos, 3) == (31 * 32 + 31) * 32 + v % 32);
                assert((31 * 32 + 31) * 32 + v % 32 == v) by {
                    vstd::arithmetic::div_mod::lemma_fundamental_div_mod(v as int, 32);
                }
            } else {
                lemma_chunk_value(bits, pos, v, w, 0);
                lemma_chunk_value(bits, pos, v, w, 1);
                lemma_chunk_value(bits, pos, v, w, 2);
                lemma_chunk_value(bits, pos, v, w, 3);
                assert(pow2(0) == 1);
                vstd::arithmetic::div_mod::lemma_div_basics(v as int);
                assert(fyve_at(bits, pos) == (v / 32768) % 32);
                assert(fyve_at(bits, pos + 5) == (v / 1024) % 32);
                assert(fyve_at(bits, pos + 10) == (v / 32) % 32);
                assert(fyve_at(bits, pos + 15) == v % 32);
                assert(v / 32768 == 31 && v / 1024 == 1023 && v / 32 == 32767 && 1 <= v % 32
                    <= 5) by {
                    vstd::arithmetic::div_mod::lemma_fundamental_div_mod(v as int, 32768);
                    vstd::arithmetic::div_mod::lemma_fundamental_div_mod(v as int, 1024);
                    vstd::arithmetic::div_mod::lemma_fundamental_div_mod(v as int, 32);
                }
                assert((1023int) % 32 == 31);
                assert((32767int) % 32 == 31);
                assert(op_len_at(bits, pos) == Some(20int));
                assert(chunks_value(bits, pos, 4) == ((31 * 32 + 31) * 32 + 31) * 32 + v % 32);
                assert(((31 * 32 + 31) * 32 + 31) * 32 + v % 32 == v) by {
                    vstd::arithmetic::div_mod::lemma_fundamental_div_mod(v as int, 32);
                }
            }
        },
    }
}

/// Stream round trip: every 5-bit-aligned fyve sequence the emitter can
/// produce is read back as the same operations and characters.
pub proof fn lemma_fyve_roundtrip(items: Seq<FyveItem>)
    requires
        forall|i: int| 0 <= i < items.len() ==> item_valid(#[trigger] items[i]),
    ensures
        parse_stream(items_bits(items), 0) == Some(items),
{
    let bits = items_bits(items);
    assert(bits.subrange(0, bits.len() as int) =~= bits);
    lemma_parse_stream_at(bits, 0, items);
}

/// Generalisation of the stream round trip to any position in a larger
/// buffer.
pub proof fn lemma_parse_stream_at(bits: Seq<bool>, pos: int, items: Seq<FyveItem>)
    requires
        forall|i: int| 0 <= i < items.len() ==> item_valid(#[trigger] items[i]),
        0 <= pos <= bits.len(),
        bits.subrange(pos, bits.len() as int) == items_bits(items),
    ensures
        parse_stream(bits, pos) == Some(items),
    decreases items.len(),
{
    lemma_items_bits_len(items);
    if items.len() == 0 {
        assert(pos == bits.len());
    } else {
        let it = items[0];
        let rest = items.drop_first();
        let l = item_bits(it).len();
        assert(items_bits(items) == item_bits(it) + items_bits(rest));
        lemma_item_bits_len(it);
        assert(bits.subrange(pos, pos + l as int) =~= item_bits(it));
        lemma_read_item_at(bits, pos, it);
        let tailbits = items_bits(rest);
        assert(bits.len() - pos == l + tailbits.len());
        assert forall|x: int| 0 <= x < tailbits.len() implies bits.subrange(
            pos + l as int,
            bits.len() as int,
        )[x] == tailbits[x] by {
            assert(bits.subrange(pos, bits.len() as int)[l + x] == (item_bits(it)
                + tailbits)[l + x]);
        }
        assert(bits.subrange(pos + l as int, bits.len() as int) =~= items_bits(rest));
        lemma_parse_stream_at(bits, pos + l as int, rest);
        assert(seq![it] + rest =~= items);
    }
}

/// An emitted item is 5, 10, 15 or 20 bits long.
pub proof fn lemma_item_bits_len(it: FyveItem)
    requires
        item_valid(it),
    ensures
        5 <= item_bits(it).len() <= 20,
{
}

/// The length of an emitted stream is the sum of its items' lengths.
proof fn lemma_items_bits_len(items: Seq<FyveItem>)
    ensures
        items_bits(items).len() >= 0,
    decreases items.len(),
{
    if items.len() > 0 {
        lemma_items_bits_len(items.drop_first());
    }
}



/// Whether every character of a text is in the alphabet.
pub open spec fn all_in_alphabet(s: Seq<char>) -> bool {
    forall|i: int| 0 <= i < s.len() ==> char_code(#[trigger] s[i]) is Some
}

/// The bits of a text emitted character by character in the alphabet.
pub open spec fn fyve_text_bits(s: Seq<char>) -> Seq<bool>
    decreases s.len(),
{
    if s.len() == 0 {
        Seq::empty()
    } else {
        fyve_text_bits(s.drop_last()) + char_bits(s.last())
    }
}

/// One more character extends the emitted bits by its own.
pub proof fn lemma_fyve_text_prefix(s: Seq<char>, k: int)
    requires
        0 <= k < s.len(),
    ensures
        fyve_text_bits(s.take(k + 1)) == fyve_text_bits(s.take(k)) + char_bits(s[k]),
{
    assert(s.take(k + 1).drop_last() =~= s.take(k));
    assert(s.take(k + 1).last() == s[k]);
}

/// The emitted bits of a prefix are never longer than those of the whole
/// text.
pub proof fn lemma_fyve_text_prefix_le(s: Seq<char>, k: int)
    requires
        0 <= k <= s.len(),
    ensures
        fyve_text_bits(s.take(k)).len() <= fyve_text_bits(s).len(),
    decreases s.len() - k,
{
    if k < s.len() {
        lemma_fyve_text_prefix_le(s, k + 1);
        lemma_fyve_text_prefix(s, k);
    } else {
        assert(s.take(s.len() as int) =~= s);
    }
}

/// One operation read from a fyve stream: its kind, the system operation
/// if it is one, and the raw 5-bit chunks.
#[derive(Clone, Debug)]
pub struct Operation {
    /// Whether the operation is a system code or a character.
    pub kind: OperatingCode,
    /// The system operation, when `kind` is `System`.
    pub code: Option<OperationCode>,
    /// The raw 5-bit chunks, in reading order.
    pub value: Vec<u8>,
}

/// The value of raw chunks, first chunk most significant.
pub open spec fn value_of_chunks(s: Seq<u8>) -> nat
    decreases s.len(),
{
    if s.len() == 0 {
        0
    } else {
        value_of_chunks(s.drop_last()) * 32 + s.last() as nat
    }
}

impl Operation {
    /// Resolves the read chunks to a character of the alphabet.
    ///
    /// Fails with `BadRequest` (code 400) exactly when the chunk value is
    /// not in the alphabet.
    pub fn get_char(&self) -> (r: Result<char, Error>)
        requires
            self.value@.len() <= 4,
            forall|t: int| 0 <= t < self.value@.len() ==> self.value@[t] < 32,
        ensures
            r is Ok <==> code_char(value_of_chunks(self.value@) as u32) is Some,
            r is Ok ==> Some(r->Ok_0) == code_char(value_of_chunks(self.value@) as u32),
            r is Err ==> r->Err_0.code == 400 && r->Err_0.kind is BadRequest,
    {
        let mut value: u32 = 0;
        let mut t: usize = 0;
        while t < self.value.len()
            invariant
                t <= self.value@.len() <= 4,
                forall|x: int| 0 <= x < self.value@.len() ==> self.value@[x] < 32,
                value as nat == value_of_chunks(self.value@.take(t as int)),
                value < 0x100000,
            decreases self.value@.len() - t,
        {
            proof {
                assert(self.value@.take(t + 1).drop_last() =~= self.value@.take(t as int));
                assert forall|x: int|
                    0 <= x < self.value@.take(t + 1).len() implies #[trigger] self.value@.take(
                    t + 1,
                )[x] < 32 by {
                    assert(self.value@.take(t + 1)[x] == self.value@[x]);
                }
                lemma_value_of_chunks_bound(self.value@.take(t + 1));
                if 5 * (t + 1) < 20 {
                    vstd::arithmetic::power2::lemma_pow2_strictly_increases(
                        (5 * (t + 1)) as nat,
                        20,
                    );
                }
                vstd::arithmetic::power2::lemma2_to64();
            }
            value = value * 32 + self.value[t] as u32;
            t = t + 1;
        }
        proof {
            assert(self.value@.take(self.value@.len() as int) =~= self.value@);
        }
        match fyve_char_of_code(value) {
            Some(c) => Ok(c),
            None => Err(Error {
                code: 400,
                message: String::from_str("Invalid character"),
                kind: ErrorKind::BadRequest,
            }),
        }
    }
}

/// Chunk values below 32 fold to a value below `32^len`.
proof fn lemma_value_of_chunks_bound(s: Seq<u8>)
    requires
        forall|x: int| 0 <= x < s.len() ==> s[x] < 32,
    ensures
        value_of_chunks(s) < pow2(5 * s.len()),
    decreases s.len(),
{
    vstd::arithmetic::power2::lemma2_to64();
    if s.len() == 0 {
    } else {
        assert forall|x: int| 0 <= x < s.drop_last().len() implies s.drop_last()[x] < 32 by {
            assert(s.drop_last()[x] == s[x]);
        }
        lemma_value_of_chunks_bound(s.drop_last());
        vstd::arithmetic::power2::lemma_pow2_adds(5 * (s.len() - 1) as nat, 5);
        assert(value_of_chunks(s) == value_of_chunks(s.drop_last()) * 32 + s.last() as nat);
        assert(value_of_chunks(s.drop_last()) * 32 + 31 < pow2(5 * (s.len() - 1) as nat) * 32)
            by (nonlinear_arith)
            requires
                value_of_chunks(s.drop_last()) < pow2(5 * (s.len() - 1) as nat),
        ;
    }
}

/// Chunks read from a buffer fold to the chunk value at their position.
pub proof fn lemma_value_of_chunks_at(bits: Seq<bool>, pos: int, s: Seq<u8>)
    requires
        forall|t: int| 0 <= t < s.len() ==> s[t] as nat == fyve_at(bits, pos + 5 * t),
    ensures
        value_of_chunks(s) == chunks_value(bits, pos, s.len() as int),
    decreases s.len(),
{
    if s.len() > 0 {
        assert forall|t: int| 0 <= t < s.drop_last().len() implies s.drop_last()[t] as nat
            == fyve_at(bits, pos + 5 * t) by {
            assert(s.drop_last()[t] == s[t]);
        }
        lemma_value_of_chunks_at(bits, pos, s.drop_last());
    }
}

/// Reads fyve operations out of a bit cursor.
pub struct FyveImpl {}

impl FyveImpl {
    /// Reads the next five bits as one fyve.
    pub fn read_fyve(decoder: &mut BitDecoder) -> (r: Result<u8, Error>)
        ensures
            r is Ok <==> old(decoder).position + 5 <= old(decoder)@.len(),
            r is Ok ==> r->Ok_0 as nat == fyve_at(old(decoder)@, old(decoder).position as int)
                && r->Ok_0 < 32 && final(decoder).position == old(decoder).position + 5,
            r is Err ==> r->Err_0.code == 0b1000 && r->Err_0.kind is SizeConstraintViolation
                && final(decoder).position == old(decoder).position,
            final(decoder)@ == old(decoder)@,
            final(decoder).order == old(decoder).order,
    {
        proof {
            crate::bits::lemma_bits_to_uint_bound(
                old(decoder)@.subrange(
                    old(decoder).position as int,
                    old(decoder).position + 5,
                ),
            );
            vstd::arithmetic::power2::lemma2_to64();
        }
        match decoder.read_data(5) {
            Ok(v) => Ok(v as u8),
            Err(e) => Err(e),
        }
    }

    /// Reads one whole operation: a system pair, or a character's chunk
    /// chain of at most four chunks.
    ///
    /// Fails with `SizeConstraintViolation` exactly when the bits run out
    /// before the operation is complete.
    pub fn get_op(decoder: &mut BitDecoder) -> (r: Result<Operation, Error>)
        ensures
            r is Ok <==> op_len_at(old(decoder)@, old(decoder).position as int) is Some,
            r is Ok ==> ({
                let pos = old(decoder).position as int;
                let l = op_len_at(old(decoder)@, pos)->Some_0;
                let op = r->Ok_0;
                &&& final(decoder).position == pos + l
                &&& op.value@.len() == l / 5
                &&& forall|t: int| 0 <= t < l / 5 ==> op.value@[t] as nat == fyve_at(
                    old(decoder)@,
                    pos + 5 * t,
                )
                &&& forall|t: int| 0 <= t < l / 5 ==> op.value@[t] < 32
                &&& op.kind == (if fyve_at(old(decoder)@, pos) == 0 {
                    OperatingCode::System
                } else {
                    OperatingCode::Character
                })
                &&& op.code == (if fyve_at(old(decoder)@, pos) == 0 {
                    Some(opcode_of(fyve_at(old(decoder)@, pos + 5)))
                } else {
                    None::<OperationCode>
                })
            }),
            r is Err ==> r->Err_0.code == 0b1000 && r->Err_0.kind is SizeConstraintViolation,
            final(decoder)@ == old(decoder)@,
            final(decoder).order == old(decoder).order,
    {
        let f0 = match Self::read_fyve(decoder) {
            Ok(v) => v,
            Err(e) => {
                return Err(e);
            },
        };
        let mut value: Vec<u8> = Vec::new();
        value.push(f0);
        if f0 == 0 {
            let operator = match Self::read_fyve(decoder) {
                Ok(v) => v,
                Err(e) => {
                    return Err(e);
                },
            };
            value.push(operator);
            Ok(Operation {
                kind: OperatingCode::System,
                code: Some(OperationCode::from(&operator)),
                value,
            })
        } else {
            if f0 == 0x1f {
                let f1 = match Self::read_fyve(decoder) {
                    Ok(v) => v,
                    Err(e) => {
                        return Err(e);
                    },
                };
                value.push(f1);
                if f1 == 0x1f {
                    let f2 = match Self::read_fyve(decoder) {
                        Ok(v) => v,
                        Err(e) => {
                            return Err(e);
                        },
                    };
                    value.push(f2);
                    if f2 == 0x1f {
                        let f3 = match Self::read_fyve(decoder) {
                            Ok(v) => v,
                            Err(e) => {
                                return Err(e);
                            },
                        };
                        value.push(f3);
                    }
                }
            }
            Ok(Operation { kind: OperatingCode::Character, code: None, value })
        }
    }

    /// Looks a character up and returns its code and emission width.
    ///
    /// Returns `None` exactly when the alphabet does not carry the
    /// character.
    pub fn get_fyve(c: char) -> (r: Option<(u32, u8)>)
        ensures
            r is Some <==> char_code(c) is Some,
            r is Some ==> ({
                let p = r->Some_0;
                p.0 == char_code(c)->Some_0 && p.1 as nat == code_width(
                    char_code(c)->Some_0 as nat,
                )
            }),
    {
        match fyve_code_of_char(c) {
            Some(v) => {
                let w: u8 = if v < 32 {
                    5
                } else if v < 1024 {
                    10
                } else if v < 32768 {
                    15
                } else {
                    20
                };
                Some((v, w))
            },
            None => None,
        }
    }
}

} // verus!
