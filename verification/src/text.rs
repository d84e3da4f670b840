//! Verified number-to-text rendering for the diagnostic panels: unsigned
//! decimal and uppercase hexadecimal, plain or padded to a fixed width.

use vstd::prelude::*;

verus! {

use vstd::string::StringExecFns;

/// The decimal digit character for `d` in 0..=9.
pub open spec fn dec_digit(d: int) -> char {
    if d == 0 {
        '0'
    } else if d == 1 {
        '1'
    } else if d == 2 {
        '2'
    } else if d == 3 {
        '3'
    } else if d == 4 {
        '4'
    } else if d == 5 {
        '5'
    } else if d == 6 {
        '6'
    } else if d == 7 {
        '7'
    } else if d == 8 {
        '8'
    } else {
        '9'
    }
}

/// The uppercase hexadecimal digit character for `d` in 0..=15.
pub open spec fn hex_digit(d: int) -> char {
    if d < 10 {
        dec_digit(d)
    } else if d == 10 {
        'A'
    } else if d == 11 {
        'B'
    } else if d == 12 {
        'C'
    } else if d == 13 {
        'D'
    } else if d == 14 {
        'E'
    } else {
        'F'
    }
}

/// The decimal rendering of `n`, most significant digit first, with no
/// leading zeros (a lone zero for 0).
pub open spec fn spec_udec(n: int) -> Seq<char>
    decreases n,
{
    if n < 10 {
        seq![dec_digit(n)]
    } else {
        spec_udec(n / 10).push(dec_digit(n % 10))
    }
}

/// The uppercase hexadecimal rendering of `n`, most significant digit
/// first, with no leading zeros (a lone zero for 0).
pub open spec fn spec_uhex(n: int) -> Seq<char>
    decreases n,
{
    if n < 16 {
        seq![hex_digit(n)]
    } else {
        spec_uhex(n / 16).push(hex_digit(n % 16))
    }
}

/// `count` copies of `c` (none for a non-positive count).
pub open spec fn char_repeat(c: char, count: int) -> Seq<char> {
    Seq::new(
        if count >= 0 {
            count as nat
        } else {
            0
        },
        |i: int| c,
    )
}

/// `s` left-padded with zeros to at least `width` characters.
pub open spec fn zero_pad(s: Seq<char>, width: int) -> Seq<char> {
    char_repeat('0', width - s.len()) + s
}

/// `s` left-padded with spaces to at least `width` characters (a
/// right-aligned field).
pub open spec fn space_pad(s: Seq<char>, width: int) -> Seq<char> {
    char_repeat(' ', width - s.len()) + s
}

/// A decimal rendering has one digit per power of ten: one digit below 10,
/// two below 100, three below 1000.
pub proof fn lemma_udec_len(n: int)
    requires
        0 <= n < 1000,
    ensures
        spec_udec(n).len() == if n < 10 {
            1int
        } else if n < 100 {
            2int
        } else {
            3int
        },
    decreases n,
{
    if n >= 10 {
        lemma_udec_len(n / 10);
    }
}

/// A hexadecimal rendering has one digit per power of sixteen, up to four
/// digits below 0x10000.
pub proof fn lemma_uhex_len(n: int)
    requires
        0 <= n < 0x10000,
    ensures
        spec_uhex(n).len() == if n < 0x10 {
            1int
        } else if n < 0x100 {
            2int
        } else if n < 0x1000 {
            3int
        } else {
            4int
        },
    decreases n,
{
    if n >= 16 {
        lemma_uhex_len(n / 16);
    }
}

/// Every rendering is nonempty.
pub proof fn lemma_udec_len_pos(n: int)
    ensures
        spec_udec(n).len() >= 1,
        spec_uhex(n).len() >= 1,
{
}

fn dec_digit_str(d: u8) -> (s: &'static str)
    requires
        d < 10,
    ensures
        s@ == seq![dec_digit(d as int)],
{
    let s: &'static str = match d {
        0 => "0",
        1 => "1",
        2 => "2",
        3 => "3",
        4 => "4",
        5 => "5",
        6 => "6",
        7 => "7",
        8 => "8",
        _ => "9",
    };
    proof {
        reveal_strlit("0");
        reveal_strlit("1");
        reveal_strlit("2");
        reveal_strlit("3");
        reveal_strlit("4");
        reveal_strlit("5");
        reveal_strlit("6");
        reveal_strlit("7");
        reveal_strlit("8");
        reveal_strlit("9");
        assert(s@ =~= seq![dec_digit(d as int)]);
    }
    s
}

fn hex_digit_str(d: u8) -> (s: &'static str)
    requires
        d < 16,
    ensures
        s@ == seq![hex_digit(d as int)],
{
    if d < 10 {
        dec_digit_str(d)
    } else {
        let s: &'static str = match d {
            10 => "A",
            11 => "B",
            12 => "C",
            13 => "D",
            14 => "E",
            _ => "F",
        };
        proof {
            reveal_strlit("A");
            reveal_strlit("B");
            reveal_strlit("C");
            reveal_strlit("D");
            reveal_strlit("E");
            reveal_strlit("F");
            assert(s@ =~= seq![hex_digit(d as int)]);
        }
        s
    }
}

/// `n` in decimal, no padding.
pub fn udec_string(n: u64) -> (s: String)
    ensures
        s@ == spec_udec(n as int),
    decreases n,
{
    let digit = dec_digit_str((n % 10) as u8);
    if n < 10 {
        let s = String::from_str(digit);
        proof {
            assert(s@ =~= spec_udec(n as int));
        }
        s
    } else {
        let mut s = udec_string(n / 10);
        s.append(digit);
        proof {
            assert(s@ =~= spec_udec(n as int));
        }
        s
    }
}

/// `n` in uppercase hexadecimal, no padding.
pub fn uhex_string(n: u64) -> (s: String)
    ensures
        s@ == spec_uhex(n as int),
    decreases n,
{
    let digit = hex_digit_str((n % 16) as u8);
    if n < 16 {
        let s = String::from_str(digit);
        proof {
            assert(s@ =~= spec_uhex(n as int));
        }
        s
    } else {
        let mut s = uhex_string(n / 16);
        s.append(digit);
        proof {
            assert(s@ =~= spec_uhex(n as int));
        }
        s
    }
}

/// `n` in decimal, zero-padded to two characters.
pub fn udec_pad2(n: u8) -> (s: String)
    requires
        n < 100,
    ensures
        s@ == zero_pad(spec_udec(n as int), 2),
{
    proof {
        lemma_udec_len(n as int);
    }
    if n < 10 {
        let mut s = String::from_str("0");
        s.append(dec_digit_str(n));
        proof {
            reveal_strlit("0");
            assert(s@ =~= zero_pad(spec_udec(n as int), 2));
        }
        s
    } else {
        let s = udec_string(n as u64);
        proof {
            assert(s@ =~= zero_pad(spec_udec(n as int), 2));
        }
        s
    }
}

/// `n` in decimal, space-padded to a right-aligned three-character field.
pub fn udec_space3(n: u8) -> (s: String)
    ensures
        s@ == space_pad(spec_udec(n as int), 3),
{
    proof {
        lemma_udec_len(n as int);
        reveal_strlit(" ");
        reveal_strlit("  ");
    }
    if n < 10 {
        let mut s = String::from_str("  ");
        s.append(dec_digit_str(n));
        proof {
            assert(s@ =~= space_pad(spec_udec(n as int), 3));
        }
        s
    } else if n < 100 {
        let mut s = String::from_str(" ");
        let digits = udec_string(n as u64);
        s.append(digits.as_str());
        proof {
            assert(s@ =~= space_pad(spec_udec(n as int), 3));
        }
        s
    } else {
        let s = udec_string(n as u64);
        proof {
            assert(s@ =~= space_pad(spec_udec(n as int), 3));
        }
        s
    }
}

/// `n` in uppercase hexadecimal, zero-padded to two characters.
pub fn uhex_pad2(n: u8) -> (s: String)
    ensures
        s@ == zero_pad(spec_uhex(n as int), 2),
{
    proof {
        lemma_uhex_len(n as int);
    }
    if n < 16 {
        let mut s = String::from_str("0");
        s.append(hex_digit_str(n));
        proof {
            reveal_strlit("0");
            assert(s@ =~= zero_pad(spec_uhex(n as int), 2));
        }
        s
    } else {
        let s = uhex_string(n as u64);
        proof {
            assert(s@ =~= zero_pad(spec_uhex(n as int), 2));
        }
        s
    }
}

/// `n` in uppercase hexadecimal, zero-padded to four characters.
pub fn uhex_pad4(n: u16) -> (s: String)
    ensures
        s@ == zero_pad(spec_uhex(n as int), 4),
{
    proof {
        lemma_uhex_len(n as int);
        reveal_strlit("0");
        reveal_strlit("00");
        reveal_strlit("000");
    }
    if n < 0x10 {
        let mut s = String::from_str("000");
        s.append(hex_digit_str(n as u8));
        proof {
            assert(s@ =~= zero_pad(spec_uhex(n as int), 4));
        }
        s
    } else if n < 0x100 {
        let mut s = String::from_str("00");
        let digits = uhex_string(n as u64);
        s.append(digits.as_str());
        proof {
            assert(s@ =~= zero_pad(spec_uhex(n as int), 4));
        }
        s
    } else if n < 0x1000 {
        let mut s = String::from_str("0");
        let digits = uhex_string(n as u64);
        s.append(digits.as_str());
        proof {
            assert(s@ =~= zero_pad(spec_uhex(n as int), 4));
        }
        s
    } else {
        let s = uhex_string(n as u64);
        proof {
            assert(s@ =~= zero_pad(spec_uhex(n as int), 4));
        }
        s
    }
}

} // verus!
