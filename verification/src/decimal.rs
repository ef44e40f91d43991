//! Decimal rendering of unsigned integers, used for error messages and
//! timestamped backup file names.

use vstd::prelude::*;
use vstd::string::StringExecFns;

verus! {

/// The character for a single decimal digit value.
pub open spec fn digit_char(d: int) -> char {
    if d == 0 {
        '0'
    } else if d == 1 {
        '1'
    } else if d == 2 {
        '2'
    } else if d == 3 {
        '3'
    } else if d == 4 {
        '4'
    } else if d == 5 {
        '5'
    } else if d == 6 {
        '6'
    } else if d == 7 {
        '7'
    } else if d == 8 {
        '8'
    } else {
        '9'
    }
}

/// The decimal digits of `n`, most significant first, with no leading zeros
/// (a single '0' for zero).
pub open spec fn decimal_seq(n: nat) -> Seq<char>
    decreases n,
{
    if n < 10 {
        seq![digit_char(n as int)]
    } else {
        decimal_seq(n / 10) + seq![digit_char((n % 10) as int)]
    }
}

/// `s` left-padded with '0' up to width `w`.
pub open spec fn zero_pad(s: Seq<char>, w: nat) -> Seq<char> {
    if s.len() >= w {
        s
    } else {
        Seq::new((w - s.len()) as nat, |i: int| '0') + s
    }
}

/// The single-character string for a decimal digit.
fn digit_str(d: u64) -> (r: &'static str)
    requires
        d < 10,
    ensures
        r@ == seq![digit_char(d as int)],
{
    proof {
        reveal_strlit("0");
        reveal_strlit("1");
        reveal_strlit("2");
        reveal_strlit("3");
        reveal_strlit("4");
        reveal_strlit("5");
        reveal_strlit("6");
        reveal_strlit("7");
        reveal_strlit("8");
        reveal_strlit("9");
    }
    let r: &'static str = match d {
        0 => "0",
        1 => "1",
        2 => "2",
        3 => "3",
        4 => "4",
        5 => "5",
        6 => "6",
        7 => "7",
        8 => "8",
        _ => "9",
    };
    proof {
        assert(r@ =~= seq![digit_char(d as int)]);
    }
    r
}

/// Append the decimal digits of `n` to `out`.
pub fn push_decimal(out: &mut String, n: u64)
    ensures
        final(out)@ == old(out)@ + decimal_seq(n as nat),
    decreases n,
{
    if n >= 10 {
        push_decimal(out, n / 10);
        out.append(digit_str(n % 10));
        proof {
            assert(decimal_seq(n as nat) == decimal_seq(n as nat / 10) + seq![
                digit_char((n % 10) as int),
            ]);
            assert(out@ =~= old(out)@ + decimal_seq(n as nat));
        }
    } else {
        out.append(digit_str(n));
        proof {
            assert(out@ =~= old(out)@ + decimal_seq(n as nat));
        }
    }
}

/// The decimal digits of `n` as a string.
pub fn u64_to_string(n: u64) -> (s: String)
    ensures
        s@ == decimal_seq(n as nat),
{
    let mut s = String::new();
    push_decimal(&mut s, n);
    proof {
        assert(s@ =~= decimal_seq(n as nat));
    }
    s
}

/// The decimal digits of `n`, left-padded with zeros up to `width` characters.
pub fn padded_decimal(n: u64, width: usize) -> (s: String)
    ensures
        s@ == zero_pad(decimal_seq(n as nat), width as nat),
{
    let digits = u64_to_string(n);
    let len = digits.as_str().unicode_len();
    let need: usize = if len >= width {
        0
    } else {
        width - len
    };
    let mut s = String::new();
    let mut added: usize = 0;
    while added < need
        invariant
            len == decimal_seq(n as nat).len(),
            need == if len >= width { 0int } else { width - len },
            added <= need,
            s@ =~= Seq::new(added as nat, |i: int| '0'),
        decreases need - added,
    {
        s.append(digit_str(0));
        added = added + 1;
        proof {
            assert(s@ =~= Seq::new(added as nat, |i: int| '0'));
        }
    }
    s.append(digits.as_str());
    proof {
        assert(s@ =~= zero_pad(decimal_seq(n as nat), width as nat));
    }
    s
}

} // verus!
