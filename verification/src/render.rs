//! Rendering the report's fields as text: zero-padded decimal numbers, the
//! `YYYY-MM-DD HH:MM:SS` timestamp, and the file size in binary megabytes
//! with exactly two decimal places (ties rounded to even, as fixed-precision
//! formatting of the exact quotient does).

use vstd::prelude::*;
use vstd::string::StringExecFns;

use crate::calendar::Civil;
use crate::calendar::CivilTime;

verus! {

pub open spec fn dec_digit(n: int) -> char {
    if n == 0 {
        '0'
    } else if n == 1 {
        '1'
    } else if n == 2 {
        '2'
    } else if n == 3 {
        '3'
    } else if n == 4 {
        '4'
    } else if n == 5 {
        '5'
    } else if n == 6 {
        '6'
    } else if n == 7 {
        '7'
    } else if n == 8 {
        '8'
    } else {
        '9'
    }
}

/// A number of at most two digits, zero-padded to width two.
pub open spec fn two_digits(n: int) -> Seq<char> {
    seq![dec_digit(n / 10), dec_digit(n % 10)]
}

/// A number of at most four digits, zero-padded to width four.
pub open spec fn four_digits(n: int) -> Seq<char> {
    seq![
        dec_digit(n / 1000),
        dec_digit((n / 100) % 10),
        dec_digit((n / 10) % 10),
        dec_digit(n % 10),
    ]
}

/// Plain decimal rendering, no padding, most significant digit first.
pub open spec fn dec_string(n: int) -> Seq<char>
    decreases n,
{
    if n < 10 {
        seq![dec_digit(n)]
    } else {
        dec_string(n / 10).push(dec_digit(n % 10))
    }
}

/// The timestamp layout: `YYYY-MM-DD HH:MM:SS`.
pub open spec fn format_civil(c: Civil) -> Seq<char> {
    four_digits(c.year) + seq!['-'] + two_digits(c.month) + seq!['-'] + two_digits(c.day) + seq![
        ' ',
    ] + two_digits(c.hour) + seq![':'] + two_digits(c.minute) + seq![':'] + two_digits(c.second)
}

/// A byte count as hundredths of a binary megabyte (1 MB = 1,048,576 bytes),
/// rounded to the nearest hundredth, ties to even.
pub open spec fn size_hundredths(bytes: int) -> int {
    let q = (bytes * 25) / 262144;
    let r = (bytes * 25) % 262144;
    if 2 * r > 262144 {
        q + 1
    } else if 2 * r == 262144 && q % 2 == 1 {
        q + 1
    } else {
        q
    }
}

/// A byte count as a megabyte figure with exactly two decimal places.
pub open spec fn size_string(bytes: int) -> Seq<char> {
    dec_string(size_hundredths(bytes) / 100) + seq!['.'] + two_digits(size_hundredths(bytes) % 100)
}

fn digit_str(n: u8) -> (r: &'static str)
    requires
        n < 10,
    ensures
        r@ =~= seq![dec_digit(n as int)],
{
    proof {
        reveal_strlit("0");
        reveal_strlit("1");
        reveal_strlit("2");
        reveal_strlit("3");
        reveal_strlit("4");
        reveal_strlit("5");
        reveal_strlit("6");
        reveal_strlit("7");
        reveal_strlit("8");
        reveal_strlit("9");
    }
    if n == 0 {
        "0"
    } else if n == 1 {
        "1"
    } else if n == 2 {
        "2"
    } else if n == 3 {
        "3"
    } else if n == 4 {
        "4"
    } else if n == 5 {
        "5"
    } else if n == 6 {
        "6"
    } else if n == 7 {
        "7"
    } else if n == 8 {
        "8"
    } else {
        "9"
    }
}

fn push_two(s: &mut String, n: u8)
    requires
        n < 100,
    ensures
        final(s)@ == old(s)@ + two_digits(n as int),
{
    s.append(digit_str(n / 10));
    s.append(digit_str(n % 10));
    proof {
        assert(s@ =~= old(s)@ + two_digits(n as int));
    }
}

fn push_four(s: &mut String, n: u16)
    requires
        n < 10000,
    ensures
        final(s)@ == old(s)@ + four_digits(n as int),
{
    s.append(digit_str((n / 1000) as u8));
    s.append(digit_str(((n / 100) % 10) as u8));
    s.append(digit_str(((n / 10) % 10) as u8));
    s.append(digit_str((n % 10) as u8));
    proof {
        assert(s@ =~= old(s)@ + four_digits(n as int));
    }
}

/// The `YYYY-MM-DD HH:MM:SS` rendering of a civil time.
pub fn render_civil(ct: &CivilTime) -> (s: String)
    requires
        ct@.wf(),
    ensures
        s@ == format_civil(ct@),
{
    proof {
        reveal_strlit("-");
        reveal_strlit(" ");
        reveal_strlit(":");
    }
    let mut s = String::new();
    push_four(&mut s, ct.year);
    s.append("-");
    push_two(&mut s, ct.month);
    s.append("-");
    push_two(&mut s, ct.day);
    s.append(" ");
    push_two(&mut s, ct.hour);
    s.append(":");
    push_two(&mut s, ct.minute);
    s.append(":");
    push_two(&mut s, ct.second);
    proof {
        assert(s@ =~= format_civil(ct@));
    }
    s
}

/// Plain decimal rendering of a machine word.
pub fn render_u64(n: u64) -> (s: String)
    ensures
        s@ == dec_string(n as int),
    decreases n,
{
    if n < 10 {
        digit_str(n as u8).to_owned()
    } else {
        let mut s = render_u64(n / 10);
        s.append(digit_str((n % 10) as u8));
        proof {
            assert(s@ =~= dec_string(n as int));
        }
        s
    }
}

/// A byte count rendered as megabytes with two decimal places.
pub fn size_mb_string(bytes: u64) -> (s: String)
    ensures
        s@ == size_string(bytes as int),
{
    let t: u128 = (bytes as u128) * 25;
    let q: u128 = t / 262144;
    let r: u128 = t % 262144;
    let h128: u128 = if 2 * r > 262144 {
        q + 1
    } else if 2 * r == 262144 && q % 2 == 1 {
        q + 1
    } else {
        q
    };
    proof {
        assert(q < 0x10000000000000000) by (nonlinear_arith)
            requires
                q == t / 262144,
                t <= 0xffffffffffffffff * 25,
        ;
        assert(h128 == size_hundredths(bytes as int));
    }
    let h: u64 = h128 as u64;
    let mut s = render_u64(h / 100);
    proof {
        reveal_strlit(".");
    }
    s.append(".");
    push_two(&mut s, (h % 100) as u8);
    proof {
        assert(s@ =~= size_string(bytes as int));
    }
    s
}

} // verus!
