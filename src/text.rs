//! Small string helpers on top of what vstd specifies for `str`.

use vstd::prelude::*;
use vstd::string::StringSliceAdditionalSpecFns;

verus! {

/// Exact comparison of two strings, character by character.
pub fn str_eq(a: &str, b: &str) -> (r: bool)
    ensures
        r == (a@ == b@),
{
    broadcast use vstd::utf8::encode_utf8_decode_utf8;

    let x = a.as_bytes();
    let y = b.as_bytes();
    if x.len() != y.len() {
        return false;
    }
    let mut i: usize = 0;
    while i < x.len()
        invariant
            x@ == a.spec_bytes(),
            y@ == b.spec_bytes(),
            x@.len() == y@.len(),
            i <= x@.len(),
            forall|j: int| 0 <= j < i ==> x@[j] == y@[j],
        decreases x@.len() - i,
    {
        if x[i] != y[i] {
            return false;
        }
        i = i + 1;
    }
    assert(x@ =~= y@);
    assert(a@ == b@) by {
        vstd::utf8::encode_utf8_decode_utf8(a@);
        vstd::utf8::encode_utf8_decode_utf8(b@);
        assert(a.spec_bytes() == vstd::utf8::encode_utf8(a@));
    }
    true
}


/// Splits an ASCII text after its first `p` characters.
pub fn split_ascii(s: &str, p: usize) -> (r: (&str, &str))
    requires
        vstd::utf8::is_ascii_chars(s@),
        p <= s@.len(),
    ensures
        r.0@ == s@.subrange(0, p as int),
        r.1@ == s@.subrange(p as int, s@.len() as int),
{
    broadcast use vstd::utf8::encode_utf8_valid_utf8, vstd::utf8::is_char_boundary_start_end_of_seq,
        vstd::utf8::encode_utf8_decode_utf8;

    let ghost bytes = s.spec_bytes();
    proof {
        vstd::utf8::is_ascii_chars_encode_utf8(s@);
        assert(bytes == vstd::utf8::encode_utf8(s@));
        if p < bytes.len() {
            vstd::utf8::is_char_boundary_iff_not_is_continuation_byte(bytes, p as int);
            assert(bytes[p as int] == s@[p as int] as u8);
        }
    }
    let r = s.split_at(p);
    proof {
        let a = s@.subrange(0, p as int);
        let b = s@.subrange(p as int, s@.len() as int);
        vstd::utf8::is_ascii_chars_encode_utf8(a);
        vstd::utf8::is_ascii_chars_encode_utf8(b);
        assert(vstd::utf8::encode_utf8(a) =~= bytes.subrange(0, p as int));
        assert(vstd::utf8::encode_utf8(b) =~= bytes.subrange(p as int, bytes.len() as int));
        assert(r.0.spec_bytes() == vstd::utf8::encode_utf8(r.0@));
        assert(r.1.spec_bytes() == vstd::utf8::encode_utf8(r.1@));
        assert(r.0@ == vstd::utf8::decode_utf8(vstd::utf8::encode_utf8(a)));
        assert(r.1@ == vstd::utf8::decode_utf8(vstd::utf8::encode_utf8(b)));
    }
    r
}

} // verus!
