//! Numeric literals of the EDS format: `0x` prefixed hexadecimal or plain decimal.

use vstd::prelude::*;

use core::num::ParseIntError;

verus! {

#[verifier::external_type_specification]
#[verifier::external_body]
pub struct ExParseIntError(core::num::ParseIntError);

/// Value of the digit with character code `code` in `radix` (letters of either case
/// stand for ten and up).
pub open spec fn code_digit(code: int, radix: u32) -> Option<int> {
    let d: int = if 0x30 <= code <= 0x39 {
        code - 0x30
    } else if 0x61 <= code <= 0x7A {
        code - 0x61 + 10
    } else if 0x41 <= code <= 0x5A {
        code - 0x41 + 10
    } else {
        36
    };
    if d < radix {
        Some(d)
    } else {
        None
    }
}

/// Value of one digit in `radix`.
pub open spec fn digit_value(c: char, radix: u32) -> Option<int> {
    code_digit(c as int, radix)
}

/// Reads one hexadecimal digit given by its character code.
pub fn hex_digit(x: u8) -> (r: Option<u8>)
    ensures
        r is Some <==> code_digit(x as int, 16) is Some,
        r is Some ==> r->0 as int == code_digit(x as int, 16)->0,
{
    if 0x30 <= x && x <= 0x39 {
        Some(x - 0x30)
    } else if 0x61 <= x && x <= 0x66 {
        Some(x - 0x61 + 10)
    } else if 0x41 <= x && x <= 0x46 {
        Some(x - 0x41 + 10)
    } else {
        None
    }
}

/// Value of a run of digits in `radix`, most significant first; `None` if one is no digit.
pub open spec fn digits_value(s: Seq<char>, radix: u32) -> Option<int>
    decreases s.len(),
{
    if s.len() == 0 {
        Some(0)
    } else {
        match (digits_value(s.drop_last(), radix), digit_value(s.last(), radix)) {
            (Some(v), Some(d)) => Some(v * radix + d),
            _ => None,
        }
    }
}

/// A run of digits has no negative value.
pub proof fn lemma_digits_nonneg(s: Seq<char>, radix: u32)
    ensures
        digits_value(s, radix) matches Some(v) ==> v >= 0,
    decreases s.len(),
{
    if s.len() > 0 {
        lemma_digits_nonneg(s.drop_last(), radix);
        if let Some(v) = digits_value(s.drop_last(), radix) {
            assert(v * radix >= 0) by (nonlinear_arith)
                requires
                    v >= 0,
            ;
        }
    }
}

/// The integer that `from_str_radix` reads: an optional sign (`-` only when `signed`)
/// followed by at least one digit.
pub open spec fn int_literal(s: Seq<char>, radix: u32, signed: bool) -> Option<int> {
    if s.len() == 0 {
        None
    } else if (s[0] == '+' || s[0] == '-') && s.len() == 1 {
        None
    } else if s[0] == '+' {
        digits_value(s.drop_first(), radix)
    } else if s[0] == '-' && signed {
        match digits_value(s.drop_first(), radix) {
            Some(v) => Some(-v),
            None => None,
        }
    } else {
        digits_value(s, radix)
    }
}

/// `s` holds `0x` somewhere.
pub open spec fn has_hex_marker(s: Seq<char>) -> bool {
    exists|i: int| 0 <= i && i + 1 < s.len() && s[i] == '0' && #[trigger] s[i + 1] == 'x'
}

/// `s` without all of its leading `0x` repetitions.
pub open spec fn strip_hex_marker(s: Seq<char>) -> Seq<char>
    decreases s.len(),
{
    if s.len() >= 2 && s[0] == '0' && s[1] == 'x' {
        strip_hex_marker(s.subrange(2, s.len() as int))
    } else {
        s
    }
}

/// Value of an EDS numeric literal: empty text is zero; text holding `0x` is read in base
/// 16 after its leading `0x` is removed, other text in base 10.
pub open spec fn eds_number(s: Seq<char>, signed: bool) -> Option<int> {
    if s.len() == 0 {
        Some(0)
    } else if has_hex_marker(s) {
        int_literal(strip_hex_marker(s), 16, signed)
    } else {
        int_literal(s, 10, signed)
    }
}

/// Relies on `num_traits::Num::from_str_radix` for `u8`, which is `u8::from_str_radix`.
#[verifier::external_body]
pub(crate) fn u8_from_str_radix(s: &str, radix: u32) -> (r: Result<u8, ParseIntError>)
    requires
        2 <= radix <= 36,
    ensures
        match int_literal(s@, radix, false) {
            Some(v) => if v <= u8::MAX {
                r == Ok::<u8, ParseIntError>(v as u8)
            } else {
                r is Err
            },
            None => r is Err,
        },
{
    <u8 as num_traits::Num>::from_str_radix(s, radix)
}

/// Relies on `num_traits::Num::from_str_radix` for `u16`, which is `u16::from_str_radix`.
#[verifier::external_body]
pub(crate) fn u16_from_str_radix(s: &str, radix: u32) -> (r: Result<u16, ParseIntError>)
    requires
        2 <= radix <= 36,
    ensures
        match int_literal(s@, radix, false) {
            Some(v) => if v <= u16::MAX {
                r == Ok::<u16, ParseIntError>(v as u16)
            } else {
                r is Err
            },
            None => r is Err,
        },
{
    <u16 as num_traits::Num>::from_str_radix(s, radix)
}

/// Relies on `num_traits::Num::from_str_radix` for `u32`, which is `u32::from_str_radix`.
#[verifier::external_body]
fn u32_from_str_radix(s: &str, radix: u32) -> (r: Result<u32, ParseIntError>)
    requires
        2 <= radix <= 36,
    ensures
        match int_literal(s@, radix, false) {
            Some(v) => if v <= u32::MAX {
                r == Ok::<u32, ParseIntError>(v as u32)
            } else {
                r is Err
            },
            None => r is Err,
        },
{
    <u32 as num_traits::Num>::from_str_radix(s, radix)
}

/// Relies on `num_traits::Num::from_str_radix` for `i8`, which is `i8::from_str_radix`.
#[verifier::external_body]
fn i8_from_str_radix(s: &str, radix: u32) -> (r: Result<i8, ParseIntError>)
    requires
        2 <= radix <= 36,
    ensures
        match int_literal(s@, radix, true) {
            Some(v) => if i8::MIN <= v <= i8::MAX {
                r == Ok::<i8, ParseIntError>(v as i8)
            } else {
                r is Err
            },
            None => r is Err,
        },
{
    <i8 as num_traits::Num>::from_str_radix(s, radix)
}

/// Relies on `num_traits::Num::from_str_radix` for `i16`, which is `i16::from_str_radix`.
#[verifier::external_body]
fn i16_from_str_radix(s: &str, radix: u32) -> (r: Result<i16, ParseIntError>)
    requires
        2 <= radix <= 36,
    ensures
        match int_literal(s@, radix, true) {
            Some(v) => if i16::MIN <= v <= i16::MAX {
                r == Ok::<i16, ParseIntError>(v as i16)
            } else {
                r is Err
            },
            None => r is Err,
        },
{
    <i16 as num_traits::Num>::from_str_radix(s, radix)
}

/// Relies on `num_traits::Num::from_str_radix` for `i32`, which is `i32::from_str_radix`.
#[verifier::external_body]
fn i32_from_str_radix(s: &str, radix: u32) -> (r: Result<i32, ParseIntError>)
    requires
        2 <= radix <= 36,
    ensures
        match int_literal(s@, radix, true) {
            Some(v) => if i32::MIN <= v <= i32::MAX {
                r == Ok::<i32, ParseIntError>(v as i32)
            } else {
                r is Err
            },
            None => r is Err,
        },
{
    <i32 as num_traits::Num>::from_str_radix(s, radix)
}

/// Digits only come from ASCII text.
proof fn lemma_digits_ascii(s: Seq<char>, radix: u32)
    requires
        radix <= 36,
        digits_value(s, radix) is Some,
    ensures
        vstd::utf8::is_ascii_chars(s),
    decreases s.len(),
{
    if s.len() > 0 {
        lemma_digits_ascii(s.drop_last(), radix);
        assert forall|i: int| 0 <= i < s.len() implies '\0' <= #[trigger] s[i] <= '\u{7f}' by {
            if i < s.len() - 1 {
                assert(s[i] == s.drop_last()[i]);
            } else {
                assert(digit_value(s.last(), radix) is Some);
            }
        }
    }
}

/// A literal that reads is ASCII text.
proof fn lemma_literal_ascii(s: Seq<char>, radix: u32, signed: bool)
    requires
        radix <= 36,
        int_literal(s, radix, signed) is Some,
    ensures
        vstd::utf8::is_ascii_chars(s),
{
    if s[0] == '+' || (s[0] == '-' && signed) {
        lemma_digits_ascii(s.drop_first(), radix);
        assert forall|i: int| 0 <= i < s.len() implies '\0' <= #[trigger] s[i] <= '\u{7f}' by {
            if i > 0 {
                assert(s[i] == s.drop_first()[i - 1]);
            }
        }
    } else {
        lemma_digits_ascii(s, radix);
    }
}

/// Removing leading `0x` keeps any character that is not ASCII.
proof fn lemma_strip_ascii(s: Seq<char>)
    requires
        vstd::utf8::is_ascii_chars(strip_hex_marker(s)),
    ensures
        vstd::utf8::is_ascii_chars(s),
    decreases s.len(),
{
    if s.len() >= 2 && s[0] == '0' && s[1] == 'x' {
        let t = s.subrange(2, s.len() as int);
        lemma_strip_ascii(t);
        assert forall|i: int| 0 <= i < s.len() implies '\0' <= #[trigger] s[i] <= '\u{7f}' by {
            if i >= 2 {
                assert(s[i] == t[i - 2]);
            }
        }
    }
}

/// The digits and the radix of a non-empty EDS literal: the text after its leading
/// `0x` in base 16 when it holds `0x`, else the whole text in base 10.
fn literal_parts(s: &str) -> (r: (&str, u32))
    requires
        s@.len() > 0,
    ensures
        2 <= r.1 <= 36,
        forall|signed: bool| #[trigger] eds_number(s@, signed) == int_literal(r.0@, r.1, signed),
{
    broadcast use vstd::string::is_ascii_spec_bytes;

    if !s.is_ascii() {
        proof {
            assert forall|signed: bool| #[trigger] eds_number(s@, signed) == int_literal(s@, 10, signed) by {
                if int_literal(s@, 10, signed) is Some {
                    lemma_literal_ascii(s@, 10, signed);
                }
                if has_hex_marker(s@) && int_literal(strip_hex_marker(s@), 16, signed) is Some {
                    lemma_literal_ascii(strip_hex_marker(s@), 16, signed);
                    lemma_strip_ascii(s@);
                }
            }
        }
        return (s, 10);
    }
    let b = s.as_bytes();
    assert(b@.len() == s@.len());
    assert forall|i: int| 0 <= i < b@.len() implies (#[trigger] b@[i] == 0x30 <==> s@[i] == '0') && (b@[i]
        == 0x78 <==> s@[i] == 'x') by {
        assert(b@[i] == s@[i] as u8);
    }
    let mut found = false;
    let mut i: usize = 0;
    while i < b.len() - 1
        invariant
            b@.len() == s@.len(),
            s@.len() > 0,
            forall|j: int| 0 <= j < b@.len() ==> (#[trigger] b@[j] == 0x30 <==> s@[j] == '0') && (b@[j]
                == 0x78 <==> s@[j] == 'x'),
            found <==> exists|j: int| 0 <= j < i && j + 1 < s@.len() && s@[j] == '0' && #[trigger] s@[j + 1] == 'x',
        decreases b@.len() - i,
    {
        if b[i] == 0x30 && b[i + 1] == 0x78 {
            found = true;
        }
        i = i + 1;
    }
    assert(found == has_hex_marker(s@)) by {
        if has_hex_marker(s@) {
            let j = choose|j: int| 0 <= j && j + 1 < s@.len() && s@[j] == '0' && #[trigger] s@[j + 1] == 'x';
            assert(j < i);
        }
    }
    if !found {
        return (s, 10);
    }
    let mut k: usize = 0;
    assert(s@.subrange(0, s@.len() as int) =~= s@);
    while k < b.len() - 1 && b[k] == 0x30 && b[k + 1] == 0x78
        invariant
            b@.len() == s@.len(),
            s@.len() > 0,
            forall|j: int| 0 <= j < b@.len() ==> (#[trigger] b@[j] == 0x30 <==> s@[j] == '0') && (b@[j]
                == 0x78 <==> s@[j] == 'x'),
            k <= b@.len(),
            strip_hex_marker(s@) == strip_hex_marker(s@.subrange(k as int, s@.len() as int)),
        decreases b@.len() - k,
    {
        let ghost t = s@.subrange(k as int, s@.len() as int);
        assert(t.subrange(2, t.len() as int) =~= s@.subrange(k + 2, s@.len() as int));
        k = k + 2;
    }
    let (_, rest) = crate::text::split_ascii(s, k);
    proof {
        let t = s@.subrange(k as int, s@.len() as int);
        assert(!(t.len() >= 2 && t[0] == '0' && t[1] == 'x'));
    }
    (rest, 16)
}

pub fn eds_string_to_u8(s: &str) -> (r: Result<u8, ParseIntError>)
    ensures
        match eds_number(s@, false) {
            Some(v) => if v <= u8::MAX {
                r == Ok::<u8, ParseIntError>(v as u8)
            } else {
                r is Err
            },
            None => r is Err,
        },
{
    if s.is_empty() {
        Ok(0)
    } else {
        let (digits, radix) = literal_parts(s);
        u8_from_str_radix(digits, radix)
    }
}

pub fn eds_string_to_u16(s: &str) -> (r: Result<u16, ParseIntError>)
    ensures
        match eds_number(s@, false) {
            Some(v) => if v <= u16::MAX {
                r == Ok::<u16, ParseIntError>(v as u16)
            } else {
                r is Err
            },
            None => r is Err,
        },
{
    if s.is_empty() {
        Ok(0)
    } else {
        let (digits, radix) = literal_parts(s);
        u16_from_str_radix(digits, radix)
    }
}

pub fn eds_string_to_u32(s: &str) -> (r: Result<u32, ParseIntError>)
    ensures
        match eds_number(s@, false) {
            Some(v) => if v <= u32::MAX {
                r == Ok::<u32, ParseIntError>(v as u32)
            } else {
                r is Err
            },
            None => r is Err,
        },
{
    if s.is_empty() {
        Ok(0)
    } else {
        let (digits, radix) = literal_parts(s);
        u32_from_str_radix(digits, radix)
    }
}

pub fn eds_string_to_i8(s: &str) -> (r: Result<i8, ParseIntError>)
    ensures
        match eds_number(s@, true) {
            Some(v) => if i8::MIN <= v <= i8::MAX {
                r == Ok::<i8, ParseIntError>(v as i8)
            } else {
                r is Err
            },
            None => r is Err,
        },
{
    if s.is_empty() {
        Ok(0)
    } else {
        let (digits, radix) = literal_parts(s);
        i8_from_str_radix(digits, radix)
    }
}

pub fn eds_string_to_i16(s: &str) -> (r: Result<i16, ParseIntError>)
    ensures
        match eds_number(s@, true) {
            Some(v) => if i16::MIN <= v <= i16::MAX {
                r == Ok::<i16, ParseIntError>(v as i16)
            } else {
                r is Err
            },
            None => r is Err,
        },
{
    if s.is_empty() {
        Ok(0)
    } else {
        let (digits, radix) = literal_parts(s);
        i16_from_str_radix(digits, radix)
    }
}

pub fn eds_string_to_i32(s: &str) -> (r: Result<i32, ParseIntError>)
    ensures
        match eds_number(s@, true) {
            Some(v) => if i32::MIN <= v <= i32::MAX {
                r == Ok::<i32, ParseIntError>(v as i32)
            } else {
                r is Err
            },
            None => r is Err,
        },
{
    if s.is_empty() {
        Ok(0)
    } else {
        let (digits, radix) = literal_parts(s);
        i32_from_str_radix(digits, radix)
    }
}

} // verus!
