//! Byte and text helpers of the protocol: UTF-8 conversion, splitting a
//! payload on a separator byte, and decimal numerals.

use vstd::prelude::*;
use vstd::string::StringExecFns;
use vstd::utf8::{decode_utf8, valid_utf8};

verus! {

/// Relies on `String::from_utf8`: it succeeds exactly on valid UTF-8 and
/// returns the decoded characters, as `vstd`'s UTF-8 model states them.
#[verifier::external_body]
pub fn string_from_utf8(bytes: Vec<u8>) -> (r: Option<String>)
    ensures
        r is Some <==> valid_utf8(bytes@),
        r is Some ==> r->Some_0@ == decode_utf8(bytes@),
{
    match String::from_utf8(bytes) {
        Ok(s) => Some(s),
        Err(_) => None,
    }
}

/// Relies on `String::push`: it appends the given character.
#[verifier::external_body]
pub fn push_char(s: &mut String, c: char)
    ensures
        final(s)@ == old(s)@.push(c),
{
    s.push(c);
}

/// The pieces of `s` between occurrences of `sep`, scanning from `i` with
/// the current piece starting at `start`.
pub open spec fn split_from(s: Seq<u8>, sep: u8, i: int, start: int) -> Seq<Seq<u8>>
    decreases s.len() - i,
{
    if i < 0 || i >= s.len() {
        seq![s.subrange(start, s.len() as int)]
    } else if s[i] == sep {
        seq![s.subrange(start, i)] + split_from(s, sep, i + 1, i + 1)
    } else {
        split_from(s, sep, i + 1, start)
    }
}

/// The pieces of `s` between occurrences of `sep`: one more piece than
/// there are separators, empty pieces kept.
pub open spec fn split_bytes_spec(s: Seq<u8>, sep: u8) -> Seq<Seq<u8>> {
    split_from(s, sep, 0, 0)
}

/// Splits a byte sequence on a separator byte, keeping empty pieces.
pub fn split_bytes(s: &Vec<u8>, sep: u8) -> (r: Vec<Vec<u8>>)
    ensures
        r.deep_view() == split_bytes_spec(s@, sep),
{
    let mut out: Vec<Vec<u8>> = Vec::new();
    let mut cur: Vec<u8> = Vec::new();
    let mut i: usize = 0;
    while i < s.len()
        invariant
            i <= s@.len(),
            cur@.len() <= i,
            cur@ == s@.subrange(i - cur@.len(), i as int),
            split_bytes_spec(s@, sep) == out.deep_view() + split_from(
                s@,
                sep,
                i as int,
                i - cur@.len(),
            ),
        decreases s@.len() - i,
    {
        let b = s[i];
        if b == sep {
            let ghost dv = out.deep_view();
            let ghost prev = out@;
            let ghost piece = cur@;
            out.push(cur);
            cur = Vec::new();
            proof {
                assert(out.deep_view() =~= dv.push(piece)) by {
                    assert forall|t: int| 0 <= t < out@.len() implies out.deep_view()[t]
                        == dv.push(piece)[t] by {
                        if t < dv.len() {
                            assert(out@[t] == prev[t]);
                            assert(dv[t] == prev[t].deep_view());
                        }
                    }
                }
                assert(dv + (seq![piece] + split_from(s@, sep, i + 1, i + 1)) =~= dv.push(piece)
                    + split_from(s@, sep, i + 1, i + 1));
                assert(cur@ =~= s@.subrange(i + 1 - cur@.len(), i + 1));
            }
        } else {
            cur.push(b);
            proof {
                assert(cur@ =~= s@.subrange(i + 1 - cur@.len(), i + 1));
            }
        }
        i = i + 1;
    }
    let ghost dv = out.deep_view();
    let ghost prev = out@;
    let ghost piece = cur@;
    proof {
        assert(piece == s@.subrange(i - piece.len(), s@.len() as int));
        assert(split_from(s@, sep, i as int, i - piece.len()) == seq![piece]);
    }
    out.push(cur);
    proof {
        assert(out.deep_view() =~= dv.push(piece)) by {
            assert forall|t: int| 0 <= t < out@.len() implies out.deep_view()[t] == dv.push(
                piece,
            )[t] by {
                if t < dv.len() {
                    assert(out@[t] == prev[t]);
                    assert(dv[t] == prev[t].deep_view());
                }
            }
        }
        assert(dv + seq![piece] =~= dv.push(piece));
    }
    out
}

/// The decimal digit character of a value below ten.
pub open spec fn digit_char(d: nat) -> char {
    if d == 0 {
        '0'
    } else if d == 1 {
        '1'
    } else if d == 2 {
        '2'
    } else if d == 3 {
        '3'
    } else if d == 4 {
        '4'
    } else if d == 5 {
        '5'
    } else if d == 6 {
        '6'
    } else if d == 7 {
        '7'
    } else if d == 8 {
        '8'
    } else {
        '9'
    }
}

/// The decimal numeral of a value, most significant digit first, without
/// leading zeros.
pub open spec fn dec_digits(v: nat) -> Seq<char>
    decreases v,
{
    if v < 10 {
        seq![digit_char(v)]
    } else {
        dec_digits(v / 10) + seq![digit_char(v % 10)]
    }
}

/// The decimal numeral of a signed value: a minus sign before the digits
/// of the magnitude.
pub open spec fn dec_digits_signed(v: int) -> Seq<char> {
    if v < 0 {
        seq!['-'] + dec_digits((-v) as nat)
    } else {
        dec_digits(v as nat)
    }
}

/// Writes a value as its decimal numeral.
pub fn u64_to_string(v: u64) -> (r: String)
    ensures
        r@ == dec_digits(v as nat),
    decreases v,
{
    if v < 10 {
        let mut s = String::new();
        let c = match v {
            0 => '0',
            1 => '1',
            2 => '2',
            3 => '3',
            4 => '4',
            5 => '5',
            6 => '6',
            7 => '7',
            8 => '8',
            _ => '9',
        };
        push_char(&mut s, c);
        proof {
            assert(Seq::<char>::empty().push(c) =~= seq![digit_char(v as nat)]);
        }
        s
    } else {
        let mut s = u64_to_string(v / 10);
        let d = v % 10;
        let c = match d {
            0 => '0',
            1 => '1',
            2 => '2',
            3 => '3',
            4 => '4',
            5 => '5',
            6 => '6',
            7 => '7',
            8 => '8',
            _ => '9',
        };
        push_char(&mut s, c);
        proof {
            assert(dec_digits((v / 10) as nat).push(c) =~= dec_digits(v as nat));
        }
        s
    }
}

/// Writes a signed value as its decimal numeral.
pub fn i32_to_string(v: i32) -> (r: String)
    ensures
        r@ == dec_digits_signed(v as int),
{
    if v < 0 {
        let m = -(v as i64);
        let mut s = String::new();
        push_char(&mut s, '-');
        let tail = u64_to_string(m as u64);
        s.append(tail.as_str());
        proof {
            assert(Seq::<char>::empty().push('-') =~= seq!['-']);
        }
        s
    } else {
        u64_to_string(v as u64)
    }
}

/// Whether a byte is an ASCII decimal digit.
pub open spec fn is_digit_byte(b: u8) -> bool {
    48 <= b <= 57
}

/// The value of an ASCII digit sequence, most significant digit first.
pub open spec fn digits_value(s: Seq<u8>) -> nat
    decreases s.len(),
{
    if s.len() == 0 {
        0
    } else {
        digits_value(s.drop_last()) * 10 + (if s.last() >= 48 {
            (s.last() - 48) as nat
        } else {
            0
        })
    }
}

/// Whether a byte sequence is a well-formed signed decimal numeral: an
/// optional sign, then at least one digit.
pub open spec fn dec_form(s: Seq<u8>) -> bool {
    let body = dec_body(s);
    body.len() >= 1 && forall|t: int| 0 <= t < body.len() ==> is_digit_byte(#[trigger] body[t])
}

/// The digits of a signed numeral, the sign stripped.
pub open spec fn dec_body(s: Seq<u8>) -> Seq<u8> {
    if s.len() >= 1 && (s[0] == 43 || s[0] == 45) {
        s.drop_first()
    } else {
        s
    }
}

/// The signed value of a well-formed numeral.
pub open spec fn dec_value_signed(s: Seq<u8>) -> int {
    if s.len() >= 1 && s[0] == 45 {
        -(digits_value(dec_body(s)) as int)
    } else {
        digits_value(dec_body(s)) as int
    }
}

/// A longer digit run never has a smaller value.
proof fn lemma_digits_value_prefix(s: Seq<u8>, i: int)
    requires
        0 <= i <= s.len(),
    ensures
        digits_value(s.take(i)) <= digits_value(s),
    decreases s.len() - i,
{
    if i < s.len() {
        lemma_digits_value_prefix(s, i + 1);
        assert(s.take(i + 1).drop_last() =~= s.take(i));
        assert(digits_value(s.take(i + 1)) >= digits_value(s.take(i)));
        assert(s.take(s.len() as int) =~= s);
    } else {
        assert(s.take(s.len() as int) =~= s);
    }
}

/// Reads a signed 32-bit integer from its decimal ASCII bytes.
///
/// Returns `Some` exactly when the bytes are a well-formed numeral whose
/// value fits an `i32`.
pub fn parse_i32_bytes(s: &Vec<u8>) -> (r: Option<i32>)
    ensures
        r is Some <==> dec_form(s@) && i32::MIN <= dec_value_signed(s@) <= i32::MAX,
        r is Some ==> r->Some_0 as int == dec_value_signed(s@),
{
    let mut start: usize = 0;
    let mut negative = false;
    if s.len() >= 1 && (s[0] == 43 || s[0] == 45) {
        start = 1;
        negative = s[0] == 45;
    }
    if s.len() == start {
        return None;
    }
    let ghost body = dec_body(s@);
    proof {
        assert(body =~= s@.subrange(start as int, s@.len() as int));
    }
    let mut acc: u64 = 0;
    let mut i: usize = start;
    while i < s.len()
        invariant
            start <= i <= s@.len(),
            start <= 1,
            body == s@.subrange(start as int, s@.len() as int),
            body == dec_body(s@),
            start == 1 <==> s@.len() >= 1 && (s@[0] == 43 || s@[0] == 45),
            negative <==> s@.len() >= 1 && s@[0] == 45,
            acc == digits_value(body.take(i - start)),
            acc <= 0x8000_0000u64,
            forall|t: int| 0 <= t < i - start ==> is_digit_byte(#[trigger] body[t]),
        decreases s@.len() - i,
    {
        let b = s[i];
        if b < 48 || b > 57 {
            proof {
                assert(body[i - start] == s@[i as int]);
                assert(!is_digit_byte(body[i - start]));
            }
            return None;
        }
        proof {
            assert(body.take(i + 1 - start).drop_last() =~= body.take(i - start));
            assert(body[i - start] == s@[i as int]);
        }
        acc = acc * 10 + ((b - 48) as u64);
        if acc > 0x8000_0000u64 {
            proof {
                lemma_digits_value_prefix(body, i + 1 - start);
                assert(digits_value(body) > 0x8000_0000);
            }
            return None;
        }
        i = i + 1;
    }
    proof {
        assert(body.take(body.len() as int) =~= body);
    }
    if negative {
        if acc > 0x8000_0000u64 {
            return None;
        }
        Some((-(acc as i64)) as i32)
    } else {
        if acc > 0x7fff_ffffu64 {
            return None;
        }
        Some(acc as i32)
    }
}


/// A split yields at least one piece.
pub proof fn lemma_split_nonempty(s: Seq<u8>, sep: u8, i: int, start: int)
    ensures
        split_from(s, sep, i, start).len() >= 1,
    decreases s.len() - i,
{
    if !(i < 0 || i >= s.len()) && s[i] != sep {
        lemma_split_nonempty(s, sep, i + 1, start);
    } else if !(i < 0 || i >= s.len()) {
        lemma_split_nonempty(s, sep, i + 1, i + 1);
    }
}

/// Copies a byte vector.
pub fn clone_bytes(v: &Vec<u8>) -> (r: Vec<u8>)
    ensures
        r@ == v@,
{
    let mut out: Vec<u8> = Vec::new();
    let mut i: usize = 0;
    while i < v.len()
        invariant
            i <= v@.len(),
            out@ == v@.take(i as int),
        decreases v@.len() - i,
    {
        out.push(v[i]);
        proof {
            assert(v@.take(i as int).push(v@[i as int]) =~= v@.take(i + 1));
        }
        i = i + 1;
    }
    proof {
        assert(v@.take(v@.len() as int) =~= v@);
    }
    out
}

/// The index after the last slash: where the base name of a path starts.
pub open spec fn base_start(s: Seq<char>) -> int
    decreases s.len(),
{
    if s.len() == 0 {
        0
    } else if s.last() == '/' {
        s.len() as int
    } else {
        base_start(s.drop_last())
    }
}

/// The base name of a path: everything after the last slash.
pub open spec fn basename_spec(s: Seq<char>) -> Seq<char> {
    s.subrange(base_start(s), s.len() as int)
}

/// Returns the base name of a slash-separated path.
pub fn basename(s: &str) -> (r: String)
    ensures
        r@ == basename_spec(s@),
{
    let n = s.unicode_len();
    let mut i: usize = n;
    proof {
        assert(s@.take(n as int) =~= s@);
    }
    while i > 0
        invariant
            i <= n,
            n == s@.len(),
            base_start(s@) == base_start(s@.take(i as int)),
            forall|t: int| i <= t < n ==> s@[t] != '/',
        decreases i,
    {
        proof {
            assert(s@.take(i as int).drop_last() =~= s@.take(i - 1));
            assert(s@.take(i as int).last() == s@[i - 1]);
        }
        if s.get_char(i - 1) == '/' {
            proof {
                assert(base_start(s@.take(i as int)) == i);
            }
            let r = s.substring_char(i, n);
            return String::from_str(r);
        }
        i = i - 1;
    }
    proof {
        assert(s@.take(0) =~= Seq::<char>::empty());
        assert(base_start(s@) == 0);
    }
    let r = s.substring_char(0, n);
    String::from_str(r)
}

/// Whether a path names an HTML document: it ends in `.html`.
pub open spec fn ends_html(s: Seq<char>) -> bool {
    s.len() >= 5 && s.subrange(s.len() - 5, s.len() as int) =~= seq!['.', 'h', 't', 'm', 'l']
}

/// Returns whether the path ends in `.html`.
pub fn is_html_path(s: &str) -> (r: bool)
    ensures
        r == ends_html(s@),
{
    let n = s.unicode_len();
    if n < 5 {
        return false;
    }
    let r = s.get_char(n - 5) == '.' && s.get_char(n - 4) == 'h' && s.get_char(n - 3) == 't'
        && s.get_char(n - 2) == 'm' && s.get_char(n - 1) == 'l';
    proof {
        if r {
            assert(s@.subrange(s@.len() - 5, s@.len() as int) =~= seq![
                '.',
                'h',
                't',
                'm',
                'l',
            ]);
        } else {
            assert(!(s@.subrange(s@.len() - 5, s@.len() as int) =~= seq![
                '.',
                'h',
                't',
                'm',
                'l',
            ]));
        }
    }
    r
}

/// Whether two texts hold the same characters.
pub fn str_eq(value: &str, expect: &str) -> (r: bool)
    ensures
        r <==> value@ == expect@,
{
    let n = value.unicode_len();
    if n != expect.unicode_len() {
        proof {
            assert(value@.len() != expect@.len());
        }
        return false;
    }
    let mut i: usize = 0;
    while i < n
        invariant
            i <= n,
            n == value@.len(),
            n == expect@.len(),
            forall|t: int| 0 <= t < i ==> value@[t] == expect@[t],
        decreases n - i,
    {
        if value.get_char(i) != expect.get_char(i) {
            return false;
        }
        i = i + 1;
    }
    proof {
        assert(value@ =~= expect@);
    }
    true
}

} // verus!
