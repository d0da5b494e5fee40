//! A CAN frame independent of the driver that carried it.

use vstd::prelude::*;
use vstd::slice::slice_subrange;

use crate::client::CanId;
use crate::number::{int_literal, lemma_digits_nonneg, u16_from_str_radix, u8_from_str_radix};
use crate::text::split_ascii;

verus! {

/// A CAN frame: identifier, up to eight data bytes and the flags drivers report.
#[derive(Debug, Clone, Copy)]
pub struct CanFrame {
    id: CanId,
    is_extended: bool,
    is_remote: bool,
    dlc: usize,
    data: [u8; 8],
}

impl CanFrame {
    #[verifier::type_invariant]
    spec fn inv(&self) -> bool {
        self.dlc <= 8
    }

    pub closed spec fn spec_id(&self) -> CanId {
        self.id
    }

    pub closed spec fn spec_extended(&self) -> bool {
        self.is_extended
    }

    pub closed spec fn spec_remote(&self) -> bool {
        self.is_remote
    }

    pub closed spec fn spec_dlc(&self) -> usize {
        self.dlc
    }

    /// The data bytes, `dlc` of them.
    pub closed spec fn payload(&self) -> Seq<u8> {
        self.data@.subrange(0, self.dlc as int)
    }

    /// A data frame; `None` when more than eight bytes are given.
    pub fn new(id: CanId, data: &[u8]) -> (r: Option<CanFrame>)
        ensures
            r is Some <==> data@.len() <= 8,
            r matches Some(f) ==> {
                &&& f.spec_id() == id
                &&& f.spec_extended() == (id is Extended)
                &&& !f.spec_remote()
                &&& f.spec_dlc() == data@.len()
                &&& f.payload() == data@
            },
    {
        if data.len() <= 8 {
            let mut payload = [0u8; 8];
            let mut i: usize = 0;
            while i < data.len()
                invariant
                    data@.len() <= 8,
                    i <= data@.len(),
                    forall|j: int| 0 <= j < i ==> #[trigger] payload@[j] == data@[j],
                decreases data@.len() - i,
            {
                payload[i] = data[i];
                i = i + 1;
            }
            let is_extended = match id {
                CanId::Extended(_) => true,
                CanId::Standard(_) => false,
            };
            let f = CanFrame { id, is_extended, is_remote: false, dlc: data.len(), data: payload };
            assert(f.payload() =~= data@);
            Some(f)
        } else {
            None
        }
    }

    /// A remote frame requesting `dlc` bytes; `None` when `dlc` exceeds eight.
    pub fn new_remote(id: CanId, dlc: usize) -> (r: Option<CanFrame>)
        ensures
            r is Some <==> dlc <= 8,
            r matches Some(f) ==> {
                &&& f.spec_id() == id
                &&& !f.spec_extended()
                &&& f.spec_remote()
                &&& f.spec_dlc() == dlc
                &&& f.payload() == Seq::new(dlc as nat, |i: int| 0u8)
            },
    {
        if dlc <= 8 {
            let f = CanFrame { id, is_extended: false, is_remote: true, dlc, data: [0u8; 8] };
            assert(f.payload() =~= Seq::new(dlc as nat, |i: int| 0u8));
            Some(f)
        } else {
            None
        }
    }

    pub fn id(&self) -> (r: CanId)
        ensures
            r == self.spec_id(),
    {
        self.id
    }

    pub fn is_extended(&self) -> (r: bool)
        ensures
            r == self.spec_extended(),
    {
        self.is_extended
    }

    pub fn is_remote_frame(&self) -> (r: bool)
        ensures
            r == self.spec_remote(),
    {
        self.is_remote
    }

    pub fn dlc(&self) -> (r: usize)
        ensures
            r == self.spec_dlc(),
            r <= 8,
    {
        proof {
            use_type_invariant(self);
        }
        self.dlc
    }

    pub fn data(&self) -> (r: &[u8])
        ensures
            r@ == self.payload(),
    {
        proof {
            use_type_invariant(self);
        }
        slice_subrange(self.data.as_slice(), 0, self.dlc)
    }
}


/// The text of a frame could not be read.
#[derive(Debug, Clone, Copy, PartialEq, Eq, Structural)]
pub enum SendError {
    SyntaxError,
}

/// `p` is the one position of `#` in `s`.
pub open spec fn sole_hash_at(s: Seq<char>, p: int) -> bool {
    &&& 0 <= p < s.len()
    &&& s[p] == '#'
    &&& forall|j: int| 0 <= j < s.len() && j != p ==> #[trigger] s[j] != '#'
}

/// The bytes that pairs of hexadecimal digits give, each pair read as by
/// `u8::from_str_radix`; `None` for an odd count or a pair that does not read.
pub open spec fn hex_pairs(body: Seq<char>) -> Option<Seq<u8>>
    decreases body.len(),
{
    if body.len() == 0 {
        Some(Seq::empty())
    } else if body.len() < 2 {
        None
    } else {
        match (
            int_literal(body.subrange(0, 2), 16, false),
            hex_pairs(body.subrange(2, body.len() as int)),
        ) {
            (Some(v), Some(rest)) => if v <= u8::MAX {
                Some(seq![v as u8] + rest)
            } else {
                None
            },
            _ => None,
        }
    }
}

/// Identifier and data of a frame written `ID#DATA`: a hexadecimal standard identifier,
/// one `#`, and up to eight bytes as pairs of hexadecimal digits.
pub open spec fn frame_text(s: Seq<char>) -> Option<(u16, Seq<u8>)> {
    if vstd::utf8::is_ascii_chars(s) && exists|p: int| sole_hash_at(s, p) {
        let p = choose|p: int| sole_hash_at(s, p);
        match (
            int_literal(s.subrange(0, p), 16, false),
            hex_pairs(s.subrange(p + 1, s.len() as int)),
        ) {
            (Some(id), Some(data)) => if id <= 0x7FF && data.len() <= 8 {
                Some((id as u16, data))
            } else {
                None
            },
            _ => None,
        }
    } else {
        None
    }
}

/// Reads hexadecimal byte pairs.
fn parse_hex_pairs(body: &str) -> (r: Option<Vec<u8>>)
    requires
        vstd::utf8::is_ascii_chars(body@),
    ensures
        match hex_pairs(body@) {
            Some(d) => r matches Some(v) && v@ == d,
            None => r is None,
        },
{
    let mut data: Vec<u8> = Vec::new();
    let mut rem = body;
    while !rem.is_empty()
        invariant
            vstd::utf8::is_ascii_chars(rem@),
            hex_pairs(body@) == match hex_pairs(rem@) {
                Some(t) => Some(data@ + t),
                None => None::<Seq<u8>>,
            },
        decreases rem@.len(),
    {
        let (_, rest) = split_ascii(rem, 1);
        if rest.is_empty() {
            return None;
        }
        let (pair, next) = split_ascii(rem, 2);
        let v = match u8_from_str_radix(pair, 16) {
            Ok(v) => v,
            Err(_) => {
                return None;
            },
        };
        proof {
            assert(rem@.len() >= 2);
            assert(hex_pairs(rem@) == match hex_pairs(next@) {
                Some(t) => Some(seq![v] + t),
                None => None::<Seq<u8>>,
            });
            if let Some(t) = hex_pairs(next@) {
                assert(data@ + (seq![v] + t) =~= data@.push(v) + t);
            }
        }
        data.push(v);
        rem = next;
    }
    proof {
        assert(data@ + Seq::<u8>::empty() =~= data@);
    }
    Some(data)
}

/// Reads a standard data frame written `ID#DATA`, such as `705#0102`.
pub fn build_frame(text: &str) -> (r: Result<CanFrame, SendError>)
    ensures
        match frame_text(text@) {
            Some((id, data)) => r matches Ok(f) && f.spec_id() == CanId::Standard(id) && f.payload()
                == data && !f.spec_remote(),
            None => r == Err::<CanFrame, SendError>(SendError::SyntaxError),
        },
{
    broadcast use vstd::string::is_ascii_spec_bytes;

    if !text.is_ascii() {
        return Err(SendError::SyntaxError);
    }
    let b = text.as_bytes();
    assert(b@.len() == text@.len());
    let mut count: usize = 0;
    let mut pos: usize = 0;
    let mut other: usize = 0;
    let mut i: usize = 0;
    while i < b.len()
        invariant
            b@.len() == text@.len(),
            forall|j: int| 0 <= j < b@.len() ==> #[trigger] b@[j] == text@[j] as u8,
            vstd::utf8::is_ascii_chars(text@),
            i <= b@.len(),
            count <= 2,
            count == 0 ==> forall|j: int| 0 <= j < i ==> #[trigger] text@[j] != '#',
            count >= 1 ==> pos < i && text@[pos as int] == '#',
            count == 1 ==> forall|j: int| 0 <= j < i && j != pos ==> #[trigger] text@[j] != '#',
            count == 2 ==> other < i && other != pos && text@[other as int] == '#',
        decreases b@.len() - i,
    {
        assert(b@[i as int] == 0x23 <==> text@[i as int] == '#');
        if b[i] == 0x23 {
            if count == 0 {
                pos = i;
                count = 1;
            } else if count == 1 {
                other = i;
                count = 2;
            }
        }
        i = i + 1;
    }
    if count != 1 {
        proof {
            assert forall|p: int| !sole_hash_at(text@, p) by {
                if count == 2 && sole_hash_at(text@, p) {
                    if p != pos as int {
                        assert(text@[pos as int] != '#');
                    } else {
                        assert(text@[other as int] != '#');
                    }
                }
            }
        }
        return Err(SendError::SyntaxError);
    }
    proof {
        assert(sole_hash_at(text@, pos as int));
        let q = choose|p: int| sole_hash_at(text@, p);
        if q != pos as int {
            assert(text@[q] != '#');
        }
    }
    let (id_text, rest) = split_ascii(text, pos);
    let (_, body) = split_ascii(rest, 1);
    assert(body@ =~= text@.subrange(pos + 1, text@.len() as int));
    let id = match u16_from_str_radix(id_text, 16) {
        Ok(id) => id,
        Err(_) => {
            return Err(SendError::SyntaxError);
        },
    };
    let data = match parse_hex_pairs(body) {
        Some(d) => d,
        None => {
            return Err(SendError::SyntaxError);
        },
    };
    if id > 0x7FF {
        proof {
            lemma_digits_nonneg(id_text@, 16);
            lemma_digits_nonneg(id_text@.drop_first(), 16);
        }
        return Err(SendError::SyntaxError);
    }
    match CanFrame::new(CanId::Standard(id), data.as_slice()) {
        Some(f) => Ok(f),
        None => Err(SendError::SyntaxError),
    }
}

} // verus!
