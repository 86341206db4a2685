//! The tagged value type that carries listener inputs and outputs across
//! the dispatch boundary.

use vstd::prelude::*;
use vstd::string::{StrSliceExecFns, StringExecFns};

use crate::errors::{Error, ErrorKind};
use crate::text::dec_digits;

verus! {

/// A value exchanged between a request decoder and its listener.
///
/// A JSON document travels as its text in `OptionValue`; the transport
/// and the caller parse it with their JSON library of choice.
#[derive(Clone, Debug)]
pub enum Arg {
    /// A text argument.
    Text(String),
    /// An unsigned 8-bit integer argument.
    U8(u8),
    /// An unsigned 16-bit integer argument.
    U16(u16),
    /// An unsigned 32-bit integer argument.
    U32(u32),
    /// An unsigned 64-bit integer argument.
    U64(u64),
    /// A boolean argument.
    Boolean(bool),
    /// A vector of text arguments.
    VecText(Vec<String>),
    /// An optional text argument.
    OptionText(Option<String>),
    /// An optional JSON document, carried as its text.
    OptionValue(Option<String>),
}

/// Whether a character is a decimal digit.
pub open spec fn is_digit_char(c: char) -> bool {
    48 <= c as u32 <= 57
}

/// The value of a decimal digit run, most significant digit first.
pub open spec fn digits_chars_value(s: Seq<char>) -> nat
    decreases s.len(),
{
    if s.len() == 0 {
        0
    } else {
        digits_chars_value(s.drop_last()) * 10 + (if s.last() as u32 >= 48 {
            (s.last() as u32 - 48) as nat
        } else {
            0
        })
    }
}

/// The digits of an unsigned numeral with its optional plus sign removed.
pub open spec fn uint_body(s: Seq<char>) -> Seq<char> {
    if s.len() >= 1 && s[0] == '+' {
        s.drop_first()
    } else {
        s
    }
}

/// Whether a text is an unsigned decimal numeral: an optional plus sign,
/// then at least one digit.
pub open spec fn uint_form(s: Seq<char>) -> bool {
    let body = uint_body(s);
    body.len() >= 1 && forall|t: int| 0 <= t < body.len() ==> is_digit_char(#[trigger] body[t])
}

/// The value of an unsigned numeral.
pub open spec fn uint_value(s: Seq<char>) -> nat {
    digits_chars_value(uint_body(s))
}

/// The value of a hexadecimal digit, or 16 when the character is none.
pub open spec fn hex_digit_value(c: char) -> nat {
    let u = c as u32;
    if 48 <= u <= 57 {
        (u - 48) as nat
    } else if 97 <= u <= 102 {
        (u - 87) as nat
    } else if 65 <= u <= 70 {
        (u - 55) as nat
    } else {
        16
    }
}

/// The value of a hexadecimal digit run, most significant digit first.
pub open spec fn hex_chars_value(s: Seq<char>) -> nat
    decreases s.len(),
{
    if s.len() == 0 {
        0
    } else {
        hex_chars_value(s.drop_last()) * 16 + (if hex_digit_value(s.last()) < 16 {
            hex_digit_value(s.last())
        } else {
            0
        })
    }
}

/// Whether a text is `0x` followed by at least one hexadecimal digit.
pub open spec fn hex_form(s: Seq<char>) -> bool {
    s.len() >= 3 && s[0] == '0' && s[1] == 'x' && forall|t: int|
        2 <= t < s.len() ==> hex_digit_value(#[trigger] s[t]) < 16
}

/// The value of a `0x` numeral.
pub open spec fn hex_value(s: Seq<char>) -> nat {
    hex_chars_value(s.subrange(2, s.len() as int))
}

/// The text an argument reads back as.
pub open spec fn arg_text_spec(a: Arg) -> Seq<char> {
    match a {
        Arg::Text(s) => s@,
        Arg::U8(v) => dec_digits(v as nat),
        Arg::U16(v) => dec_digits(v as nat),
        Arg::U32(v) => dec_digits(v as nat),
        Arg::U64(v) => dec_digits(v as nat),
        Arg::Boolean(b) => (if b {
            "true"@
        } else {
            "false"@
        }),
        Arg::VecText(v) => join_comma(v.deep_view()),
        Arg::OptionText(o) => (match o {
            Some(s) => s@,
            None => Seq::empty(),
        }),
        Arg::OptionValue(o) => (match o {
            Some(s) => s@,
            None => Seq::empty(),
        }),
    }
}

/// The texts joined with a comma and a space between each two.
pub open spec fn join_comma(parts: Seq<Seq<char>>) -> Seq<char>
    decreases parts.len(),
{
    if parts.len() == 0 {
        Seq::empty()
    } else if parts.len() == 1 {
        parts[0]
    } else {
        parts[0] + ", "@ + join_comma(parts.drop_first())
    }
}

/// Joining one more part appends a comma, a space and the part.
proof fn lemma_join_push(parts: Seq<Seq<char>>, x: Seq<char>)
    ensures
        join_comma(parts.push(x)) == (if parts.len() == 0 {
            x
        } else {
            join_comma(parts) + ", "@ + x
        }),
    decreases parts.len(),
{
    if parts.len() == 0 {
        assert(parts.push(x).len() == 1);
        assert(join_comma(parts.push(x)) == parts.push(x)[0]);
    } else {
        assert(parts.push(x).drop_first() =~= parts.drop_first().push(x));
        lemma_join_push(parts.drop_first(), x);
        if parts.len() == 1 {
            assert(parts.drop_first().len() == 0);
            assert(join_comma(parts.push(x)) == parts[0] + ", "@ + x);
            assert(join_comma(parts) == parts[0]);
        } else {
            assert(join_comma(parts) + ", "@ + x =~= parts[0] + ", "@ + (join_comma(
                parts.drop_first(),
            ) + ", "@ + x));
        }
    }
}

impl Arg {
    /// Reads a text into the argument it denotes: a `0x` numeral becomes
    /// `U32`; a decimal numeral becomes the narrowest of `U8`, `U16`,
    /// `U32` that holds it; `true` and `false` become `Boolean`; any
    /// other text stays `Text`.
    pub fn from_string(value: &str) -> (r: Arg)
        ensures
            ({
                let cs = value@;
                let hex_case = hex_form(cs) && hex_value(cs) <= u32::MAX;
                let dec = uint_form(cs);
                let v = uint_value(cs);
                &&& hex_case ==> r == Arg::U32(hex_value(cs) as u32)
                &&& !hex_case && dec && v <= u8::MAX ==> r == Arg::U8(v as u8)
                &&& !hex_case && dec && u8::MAX < v <= u16::MAX ==> r == Arg::U16(v as u16)
                &&& !hex_case && dec && u16::MAX < v <= u32::MAX ==> r == Arg::U32(v as u32)
                &&& !hex_case && !(dec && v <= u32::MAX) && cs == "true"@ ==> r == Arg::Boolean(
                    true,
                )
                &&& !hex_case && !(dec && v <= u32::MAX) && cs == "false"@ ==> r == Arg::Boolean(
                    false,
                )
                &&& !hex_case && !(dec && v <= u32::MAX) && cs != "true"@ && cs != "false"@
                    ==> r is Text && r->Text_0@ == cs
            }),
    {
        proof {
            reveal_strlit("true");
            reveal_strlit("false");
        }
        let n = value.unicode_len();
        if n >= 3 && value.get_char(0) == '0' && value.get_char(1) == 'x' {
            if let Some(v) = parse_hex_chars(value) {
                return Arg::U32(v);
            }
        }
        if let Some(v) = parse_uint_chars(value) {
            if v <= 255 {
                return Arg::U8(v as u8);
            }
            if v <= 65535 {
                return Arg::U16(v as u16);
            }
            return Arg::U32(v);
        }
        if crate::text::str_eq(value, "true") {
            return Arg::Boolean(true);
        }
        if crate::text::str_eq(value, "false") {
            return Arg::Boolean(false);
        }
        Arg::Text(String::from_str(value))
    }

    /// Writes the argument back as text: numbers in decimal, booleans as
    /// words, a text vector joined with `", "`, an absent option empty.
    pub fn to_string(&self) -> (r: String)
        ensures
            r@ == arg_text_spec(*self),
    {
        match self {
            Arg::Text(value) => value.clone(),
            Arg::U8(value) => crate::text::u64_to_string(*value as u64),
            Arg::U16(value) => crate::text::u64_to_string(*value as u64),
            Arg::U32(value) => crate::text::u64_to_string(*value as u64),
            Arg::U64(value) => crate::text::u64_to_string(*value),
            Arg::Boolean(value) => {
                if *value {
                    String::from_str("true")
                } else {
                    String::from_str("false")
                }
            },
            Arg::VecText(value) => {
                let mut out = String::new();
                let mut i: usize = 0;
                while i < value.len()
                    invariant
                        i <= value@.len(),
                        out@ == join_comma(value.deep_view().take(i as int)),
                    decreases value@.len() - i,
                {
                    proof {
                        lemma_join_push(value.deep_view().take(i as int), value.deep_view()[
                            i as int
                        ]);
                        assert(value.deep_view().take(i as int).push(value.deep_view()[i as int])
                            =~= value.deep_view().take(i + 1));
                    }
                    if i > 0 {
                        out.append(", ");
                        proof {
                            reveal_strlit(", ");
                        }
                    }
                    out.append(value[i].as_str());
                    i = i + 1;
                }
                proof {
                    assert(value.deep_view().take(value.deep_view().len() as int)
                        =~= value.deep_view());
                }
                out
            },
            Arg::OptionText(value) => match value {
                Some(value) => value.clone(),
                None => String::new(),
            },
            Arg::OptionValue(value) => match value {
                Some(value) => value.clone(),
                None => String::new(),
            },
        }
    }

    /// Returns the held byte; any other variant is an internal fault.
    pub fn to_u8(&self) -> (r: Result<u8, Error>)
        ensures
            r is Ok <==> self is U8,
            r is Ok ==> r->Ok_0 == self->U8_0,
            r is Err ==> r->Err_0.code == 500 && r->Err_0.kind is InternalServerError,
    {
        match self {
            Arg::U8(value) => Ok(*value),
            _ => Err(expected("Expected u8")),
        }
    }

    /// Returns the held 16-bit integer; any other variant is an internal
    /// fault.
    pub fn to_u16(&self) -> (r: Result<u16, Error>)
        ensures
            r is Ok <==> self is U16,
            r is Ok ==> r->Ok_0 == self->U16_0,
            r is Err ==> r->Err_0.code == 500 && r->Err_0.kind is InternalServerError,
    {
        match self {
            Arg::U16(value) => Ok(*value),
            _ => Err(expected("Expected u16")),
        }
    }

    /// Returns the held 32-bit integer; any other variant is an internal
    /// fault.
    pub fn to_u32(&self) -> (r: Result<u32, Error>)
        ensures
            r is Ok <==> self is U32,
            r is Ok ==> r->Ok_0 == self->U32_0,
            r is Err ==> r->Err_0.code == 500 && r->Err_0.kind is InternalServerError,
    {
        match self {
            Arg::U32(value) => Ok(*value),
            _ => Err(expected("Expected u32")),
        }
    }

    /// Returns the held 64-bit integer; any other variant is an internal
    /// fault.
    pub fn to_u64(&self) -> (r: Result<u64, Error>)
        ensures
            r is Ok <==> self is U64,
            r is Ok ==> r->Ok_0 == self->U64_0,
            r is Err ==> r->Err_0.code == 500 && r->Err_0.kind is InternalServerError,
    {
        match self {
            Arg::U64(value) => Ok(*value),
            _ => Err(expected("Expected u64")),
        }
    }

    /// Returns the held boolean; any other variant is an internal fault.
    pub fn to_bool(&self) -> (r: Result<bool, Error>)
        ensures
            r is Ok <==> self is Boolean,
            r is Ok ==> r->Ok_0 == self->Boolean_0,
            r is Err ==> r->Err_0.code == 500 && r->Err_0.kind is InternalServerError,
    {
        match self {
            Arg::Boolean(value) => Ok(*value),
            _ => Err(expected("Expected boolean")),
        }
    }

    /// Returns the held text vector; any other variant is an internal
    /// fault.
    pub fn to_vec_text(&self) -> (r: Result<Vec<String>, Error>)
        ensures
            r is Ok <==> self is VecText,
            r is Ok ==> r->Ok_0@ == self->VecText_0@,
            r is Err ==> r->Err_0.code == 500 && r->Err_0.kind is InternalServerError,
    {
        match self {
            Arg::VecText(value) => {
                let mut out: Vec<String> = Vec::new();
                let mut i: usize = 0;
                while i < value.len()
                    invariant
                        i <= value@.len(),
                        out@ == value@.take(i as int),
                    decreases value@.len() - i,
                {
                    out.push(value[i].clone());
                    proof {
                        assert(value@.take(i as int).push(value@[i as int]) =~= value@.take(
                            i + 1,
                        ));
                    }
                    i = i + 1;
                }
                proof {
                    assert(value@.take(value@.len() as int) =~= value@);
                }
                Ok(out)
            },
            _ => Err(expected("Expected Vec<String>")),
        }
    }

    /// Returns the held optional text; any other variant is an internal
    /// fault.
    pub fn to_option_text(&self) -> (r: Result<Option<String>, Error>)
        ensures
            r is Ok <==> self is OptionText,
            r is Ok ==> r->Ok_0 == self->OptionText_0,
            r is Err ==> r->Err_0.code == 500 && r->Err_0.kind is InternalServerError,
    {
        match self {
            Arg::OptionText(value) => match value {
                Some(s) => Ok(Some(s.clone())),
                None => Ok(None),
            },
            _ => Err(expected("Expected Option<String>")),
        }
    }

    /// Returns the held optional JSON text; any other variant is an
    /// internal fault.
    pub fn to_option_value(&self) -> (r: Result<Option<String>, Error>)
        ensures
            r is Ok <==> self is OptionValue,
            r is Ok ==> r->Ok_0 == self->OptionValue_0,
            r is Err ==> r->Err_0.code == 500 && r->Err_0.kind is InternalServerError,
    {
        match self {
            Arg::OptionValue(value) => match value {
                Some(s) => Ok(Some(s.clone())),
                None => Ok(None),
            },
            _ => Err(expected("Expected Option<Value>")),
        }
    }
}

/// The internal fault for an accessor used on the wrong variant.
fn expected(msg: &str) -> (r: Error)
    ensures
        r.code == 500 && r.kind is InternalServerError,
{
    Error { code: 500, message: String::from_str(msg), kind: ErrorKind::InternalServerError }
}

/// Reads an unsigned decimal numeral of at most `u32::MAX`.
fn parse_uint_chars(value: &str) -> (r: Option<u32>)
    ensures
        r is Some <==> uint_form(value@) && uint_value(value@) <= u32::MAX,
        r is Some ==> r->Some_0 as nat == uint_value(value@),
{
    let n = value.unicode_len();
    let mut start: usize = 0;
    if n >= 1 && value.get_char(0) == '+' {
        start = 1;
    }
    if n == start {
        return None;
    }
    let ghost body = uint_body(value@);
    proof {
        assert(body =~= value@.subrange(start as int, value@.len() as int));
    }
    let mut acc: u64 = 0;
    let mut i: usize = start;
    while i < n
        invariant
            start <= i <= n,
            start <= 1,
            n == value@.len(),
            body == value@.subrange(start as int, value@.len() as int),
            body == uint_body(value@),
            acc == digits_chars_value(body.take(i - start)),
            acc <= u32::MAX,
            forall|t: int| 0 <= t < i - start ==> is_digit_char(#[trigger] body[t]),
        decreases n - i,
    {
        let c = value.get_char(i);
        let u = c as u32;
        if u < 48 || u > 57 {
            proof {
                assert(body[i - start] == value@[i as int]);
            }
            return None;
        }
        proof {
            assert(body.take(i + 1 - start).drop_last() =~= body.take(i - start));
            assert(body[i - start] == value@[i as int]);
        }
        acc = acc * 10 + ((u - 48) as u64);
        if acc > u32::MAX as u64 {
            proof {
                lemma_digits_chars_prefix(body, i + 1 - start);
            }
            return None;
        }
        i = i + 1;
    }
    proof {
        assert(body.take(body.len() as int) =~= body);
    }
    Some(acc as u32)
}

/// Reads a `0x` numeral of at most `u32::MAX`.
fn parse_hex_chars(value: &str) -> (r: Option<u32>)
    ensures
        r is Some <==> hex_form(value@) && hex_value(value@) <= u32::MAX,
        r is Some ==> r->Some_0 as nat == hex_value(value@),
{
    let n = value.unicode_len();
    if n < 3 || value.get_char(0) != '0' || value.get_char(1) != 'x' {
        return None;
    }
    let ghost body = value@.subrange(2, value@.len() as int);
    let mut acc: u64 = 0;
    let mut i: usize = 2;
    while i < n
        invariant
            2 <= i <= n,
            n == value@.len(),
            body == value@.subrange(2, value@.len() as int),
            acc == hex_chars_value(body.take(i - 2)),
            acc <= u32::MAX,
            forall|t: int| 0 <= t < i - 2 ==> hex_digit_value(#[trigger] body[t]) < 16,
        decreases n - i,
    {
        let c = value.get_char(i);
        let u = c as u32;
        let d: u64 = if 48 <= u && u <= 57 {
            (u - 48) as u64
        } else if 97 <= u && u <= 102 {
            (u - 87) as u64
        } else if 65 <= u && u <= 70 {
            (u - 55) as u64
        } else {
            proof {
                assert(body[i - 2] == value@[i as int]);
            }
            return None;
        };
        proof {
            assert(body.take(i - 1).drop_last() =~= body.take(i - 2));
            assert(body[i - 2] == value@[i as int]);
        }
        acc = acc * 16 + d;
        if acc > u32::MAX as u64 {
            proof {
                lemma_hex_chars_prefix(body, i - 1);
            }
            return None;
        }
        i = i + 1;
    }
    proof {
        assert(body.take(body.len() as int) =~= body);
        assert forall|t: int| 2 <= t < value@.len() implies hex_digit_value(
            #[trigger] value@[t],
        ) < 16 by {
            assert(value@[t] == body[t - 2]);
        }
    }
    Some(acc as u32)
}

/// A longer digit run never has a smaller value.
proof fn lemma_digits_chars_prefix(s: Seq<char>, i: int)
    requires
        0 <= i <= s.len(),
    ensures
        digits_chars_value(s.take(i)) <= digits_chars_value(s),
    decreases s.len() - i,
{
    if i < s.len() {
        lemma_digits_chars_prefix(s, i + 1);
        assert(s.take(i + 1).drop_last() =~= s.take(i));
    } else {
        assert(s.take(s.len() as int) =~= s);
    }
}

/// A longer hexadecimal run never has a smaller value.
proof fn lemma_hex_chars_prefix(s: Seq<char>, i: int)
    requires
        0 <= i <= s.len(),
    ensures
        hex_chars_value(s.take(i)) <= hex_chars_value(s),
    decreases s.len() - i,
{
    if i < s.len() {
        lemma_hex_chars_prefix(s, i + 1);
        assert(s.take(i + 1).drop_last() =~= s.take(i));
    } else {
        assert(s.take(s.len() as int) =~= s);
    }
}

} // verus!
