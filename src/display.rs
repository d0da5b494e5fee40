//! Text forms of values and addresses.

use vstd::prelude::*;

use crate::types::{CobId, ValueType, ValueV};

verus! {

/// The character of digit `d` (0 to 15), letters in upper case.
pub open spec fn digit_char(d: int) -> char {
    if d == 0 {
        '0'
    } else if d == 1 {
        '1'
    } else if d == 2 {
        '2'
    } else if d == 3 {
        '3'
    } else if d == 4 {
        '4'
    } else if d == 5 {
        '5'
    } else if d == 6 {
        '6'
    } else if d == 7 {
        '7'
    } else if d == 8 {
        '8'
    } else if d == 9 {
        '9'
    } else if d == 10 {
        'A'
    } else if d == 11 {
        'B'
    } else if d == 12 {
        'C'
    } else if d == 13 {
        'D'
    } else if d == 14 {
        'E'
    } else if d == 15 {
        'F'
    } else {
        '?'
    }
}

/// Text of one digit.
fn digit_str(d: u8) -> (r: &'static str)
    requires
        d < 16,
    ensures
        r@ == seq![digit_char(d as int)],
{
    match d {
        0 => {
            proof {
                reveal_strlit("0");
                assert("0"@ =~= seq!['0']);
            }
            "0"
        },
        1 => {
            proof {
                reveal_strlit("1");
                assert("1"@ =~= seq!['1']);
            }
            "1"
        },
        2 => {
            proof {
                reveal_strlit("2");
                assert("2"@ =~= seq!['2']);
            }
            "2"
        },
        3 => {
            proof {
                reveal_strlit("3");
                assert("3"@ =~= seq!['3']);
            }
            "3"
        },
        4 => {
            proof {
                reveal_strlit("4");
                assert("4"@ =~= seq!['4']);
            }
            "4"
        },
        5 => {
            proof {
                reveal_strlit("5");
                assert("5"@ =~= seq!['5']);
            }
            "5"
        },
        6 => {
            proof {
                reveal_strlit("6");
                assert("6"@ =~= seq!['6']);
            }
            "6"
        },
        7 => {
            proof {
                reveal_strlit("7");
                assert("7"@ =~= seq!['7']);
            }
            "7"
        },
        8 => {
            proof {
                reveal_strlit("8");
                assert("8"@ =~= seq!['8']);
            }
            "8"
        },
        9 => {
            proof {
                reveal_strlit("9");
                assert("9"@ =~= seq!['9']);
            }
            "9"
        },
        10 => {
            proof {
                reveal_strlit("A");
                assert("A"@ =~= seq!['A']);
            }
            "A"
        },
        11 => {
            proof {
                reveal_strlit("B");
                assert("B"@ =~= seq!['B']);
            }
            "B"
        },
        12 => {
            proof {
                reveal_strlit("C");
                assert("C"@ =~= seq!['C']);
            }
            "C"
        },
        13 => {
            proof {
                reveal_strlit("D");
                assert("D"@ =~= seq!['D']);
            }
            "D"
        },
        14 => {
            proof {
                reveal_strlit("E");
                assert("E"@ =~= seq!['E']);
            }
            "E"
        },
        15 => {
            proof {
                reveal_strlit("F");
                assert("F"@ =~= seq!['F']);
            }
            "F"
        },
        _ => {
            proof {
                reveal_strlit("F");
                assert("F"@ =~= seq!['F']);
            }
            "F"
        },
    }
}

/// Decimal digits of `n`, most significant first, without leading zeros.
pub open spec fn digits_text(n: nat) -> Seq<char>
    decreases n,
{
    if n < 10 {
        seq![digit_char(n as int)]
    } else {
        digits_text(n / 10).push(digit_char((n % 10) as int))
    }
}

/// Decimal text of an integer, with `-` before a negative one.
pub open spec fn decimal_text(v: int) -> Seq<char> {
    if v < 0 {
        seq!['-'] + digits_text((-v) as nat)
    } else {
        digits_text(v as nat)
    }
}

/// Appends the decimal digits of `n`.
fn push_digits(out: &mut String, n: u64)
    ensures
        final(out)@ == old(out)@ + digits_text(n as nat),
    decreases n,
{
    if n >= 10 {
        push_digits(out, n / 10);
    }
    out.append(digit_str((n % 10) as u8));
    proof {
        if n >= 10 {
            assert(old(out)@ + digits_text((n / 10) as nat) + seq![digit_char((n % 10) as int)]
                =~= old(out)@ + digits_text(n as nat));
        } else {
            assert(old(out)@ + seq![digit_char((n % 10) as int)] =~= old(out)@ + digits_text(n as nat));
        }
    }
}

/// Decimal text of an integer.
fn decimal(v: i64) -> (r: String)
    ensures
        r@ == decimal_text(v as int),
{
    let mut out = String::new();
    if v < 0 {
        out.append("-");
        proof {
            reveal_strlit("-");
            assert("-"@ =~= seq!['-']);
        }
        let m: u64 = if v == i64::MIN {
            9223372036854775808u64
        } else {
            (-v) as u64
        };
        push_digits(&mut out, m);
        assert(out@ =~= decimal_text(v as int));
    } else {
        push_digits(&mut out, v as u64);
        assert(out@ =~= decimal_text(v as int));
    }
    out
}

/// The text form of a value: `true`/`false`, decimal integers, and text values as they
/// stand (an `F32` shows its EDS text).
pub open spec fn value_text(v: ValueV) -> Seq<char> {
    match v {
        ValueV::Bool(b) => if b {
            seq!['t', 'r', 'u', 'e']
        } else {
            seq!['f', 'a', 'l', 's', 'e']
        },
        ValueV::I8(x) => decimal_text(x as int),
        ValueV::I16(x) => decimal_text(x as int),
        ValueV::I32(x) => decimal_text(x as int),
        ValueV::U8(x) => decimal_text(x as int),
        ValueV::U16(x) => decimal_text(x as int),
        ValueV::U32(x) => decimal_text(x as int),
        ValueV::F32(t) => t,
        ValueV::VString(t) => t,
        ValueV::OString(t) => t,
    }
}

impl ValueType {
    /// The display form of the value.
    pub fn to_string(&self) -> (r: String)
        ensures
            r@ == value_text(self@),
    {
        match self {
            ValueType::Bool(b) => {
                proof {
                    reveal_strlit("true");
                    reveal_strlit("false");
                    assert("true"@ =~= seq!['t', 'r', 'u', 'e']);
                    assert("false"@ =~= seq!['f', 'a', 'l', 's', 'e']);
                }
                if *b {
                    String::from_str("true")
                } else {
                    String::from_str("false")
                }
            },
            ValueType::I8(x) => decimal(*x as i64),
            ValueType::I16(x) => decimal(*x as i64),
            ValueType::I32(x) => decimal(*x as i64),
            ValueType::U8(x) => decimal(*x as i64),
            ValueType::U16(x) => decimal(*x as i64),
            ValueType::U32(x) => decimal(*x as i64),
            ValueType::F32(t) => t.clone(),
            ValueType::VString(t) => t.clone(),
            ValueType::OString(t) => t.clone(),
        }
    }
}

/// An address as `IIII.SS`: the index in four and the subindex in two upper case
/// hexadecimal digits.
pub open spec fn cobid_text(c: CobId) -> Seq<char> {
    let i = c.0 as int;
    let s = c.1 as int;
    seq![
        digit_char(i / 4096),
        digit_char((i / 256) % 16),
        digit_char((i / 16) % 16),
        digit_char(i % 16),
        '.',
        digit_char(s / 16),
        digit_char(s % 16),
    ]
}

impl CobId {
    /// The display form of the address.
    pub fn to_string(&self) -> (r: String)
        ensures
            r@ == cobid_text(*self),
    {
        let i = self.0;
        let s = self.1;
        let mut out = String::new();
        out.append(digit_str((i / 4096) as u8));
        out.append(digit_str(((i / 256) % 16) as u8));
        out.append(digit_str(((i / 16) % 16) as u8));
        out.append(digit_str((i % 16) as u8));
        out.append(".");
        out.append(digit_str(s / 16));
        out.append(digit_str(s % 16));
        proof {
            reveal_strlit(".");
            assert(".".view() =~= seq!['.']);
        }
        assert(out@ =~= cobid_text(*self));
        out
    }
}

} // verus!
