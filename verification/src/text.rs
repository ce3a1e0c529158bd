//! Verified plain-text formatting: decimal digit strings, zero padding,
//! space padding, one-decimal fixed-point numbers and hour:minute times.

use vstd::prelude::*;
use vstd::string::{StrSliceExecFns, StringExecFns};

verus! {

/// The decimal digit character for a value between 0 and 9.
pub open spec fn digit_char(d: int) -> char {
    if d == 0 {
        '0'
    } else if d == 1 {
        '1'
    } else if d == 2 {
        '2'
    } else if d == 3 {
        '3'
    } else if d == 4 {
        '4'
    } else if d == 5 {
        '5'
    } else if d == 6 {
        '6'
    } else if d == 7 {
        '7'
    } else if d == 8 {
        '8'
    } else {
        '9'
    }
}

/// The decimal digit string of a natural number, without leading zeros
/// (except for the number 0 itself).
pub open spec fn dec_seq(n: nat) -> Seq<char>
    decreases n,
{
    if n < 10 {
        seq![digit_char(n as int)]
    } else {
        dec_seq(n / 10) + seq![digit_char((n % 10) as int)]
    }
}

/// The decimal string of an integer, with a leading minus sign when it is
/// negative.
pub open spec fn int_seq(v: int) -> Seq<char> {
    if v < 0 {
        seq!['-'] + dec_seq((-v) as nat)
    } else {
        dec_seq(v as nat)
    }
}

/// The decimal string of a natural number, zero-padded to at least two
/// digits.
pub open spec fn pad2_seq(n: nat) -> Seq<char> {
    if n < 10 {
        seq!['0'] + dec_seq(n)
    } else {
        dec_seq(n)
    }
}

/// `k` space characters.
pub open spec fn spaces(k: nat) -> Seq<char>
    decreases k,
{
    if k == 0 {
        Seq::<char>::empty()
    } else {
        spaces((k - 1) as nat) + seq![' ']
    }
}

/// `s` left-padded with spaces to width `w` (unchanged when already that
/// wide).
pub open spec fn pad_left_seq(s: Seq<char>, w: nat) -> Seq<char> {
    if s.len() >= w {
        s
    } else {
        spaces((w - s.len()) as nat) + s
    }
}

/// A measurement scaled by 1000 (meters to kilometers, meters per hour to
/// kilometers per hour), rounded half-up to one decimal and written with
/// exactly one digit after the point.
pub open spec fn one_decimal_seq(v: nat) -> Seq<char> {
    let tenths = v / 100 + (if v % 100 >= 50 {
        1nat
    } else {
        0nat
    });
    dec_seq(tenths / 10) + seq!['.'] + dec_seq(tenths % 10)
}

/// A measurement scaled by 1000, rounded half-up to a whole number.
pub open spec fn whole_scaled(v: nat) -> nat {
    v / 1000 + (if v % 1000 >= 500 {
        1nat
    } else {
        0nat
    })
}

/// A duration in whole seconds as `H:MM`: whole hours without padding,
/// then the remaining minutes zero-padded to two digits.
pub open spec fn hours_mins_seq(secs: nat) -> Seq<char> {
    dec_seq(secs / 3600) + seq![':'] + pad2_seq((secs / 60) % 60)
}

/// A duration in whole seconds as `HH:MM`, both parts zero-padded to two
/// digits.
pub open spec fn hh_mm_seq(secs: nat) -> Seq<char> {
    pad2_seq(secs / 3600) + seq![':'] + pad2_seq((secs / 60) % 60)
}

/// Appends the digit character of `d` to `s`.
fn push_digit(s: &mut String, d: u64)
    requires
        d < 10,
    ensures
        final(s)@ == old(s)@ + seq![digit_char(d as int)],
{
    if d == 0 {
        proof {
            reveal_strlit("0");
        }
        s.append("0");
        assert(final(s)@ =~= old(s)@ + seq![digit_char(d as int)]);
    } else if d == 1 {
        proof {
            reveal_strlit("1");
        }
        s.append("1");
        assert(final(s)@ =~= old(s)@ + seq![digit_char(d as int)]);
    } else if d == 2 {
        proof {
            reveal_strlit("2");
        }
        s.append("2");
        assert(final(s)@ =~= old(s)@ + seq![digit_char(d as int)]);
    } else if d == 3 {
        proof {
            reveal_strlit("3");
        }
        s.append("3");
        assert(final(s)@ =~= old(s)@ + seq![digit_char(d as int)]);
    } else if d == 4 {
        proof {
            reveal_strlit("4");
        }
        s.append("4");
        assert(final(s)@ =~= old(s)@ + seq![digit_char(d as int)]);
    } else if d == 5 {
        proof {
            reveal_strlit("5");
        }
        s.append("5");
        assert(final(s)@ =~= old(s)@ + seq![digit_char(d as int)]);
    } else if d == 6 {
        proof {
            reveal_strlit("6");
        }
        s.append("6");
        assert(final(s)@ =~= old(s)@ + seq![digit_char(d as int)]);
    } else if d == 7 {
        proof {
            reveal_strlit("7");
        }
        s.append("7");
        assert(final(s)@ =~= old(s)@ + seq![digit_char(d as int)]);
    } else if d == 8 {
        proof {
            reveal_strlit("8");
        }
        s.append("8");
        assert(final(s)@ =~= old(s)@ + seq![digit_char(d as int)]);
    } else {
        proof {
            reveal_strlit("9");
        }
        s.append("9");
        assert(final(s)@ =~= old(s)@ + seq![digit_char(d as int)]);
    }
}

/// Appends the decimal digits of `n` to `s`.
pub fn push_u64(s: &mut String, n: u64)
    ensures
        final(s)@ == old(s)@ + dec_seq(n as nat),
    decreases n,
{
    if n < 10 {
        push_digit(s, n);
    } else {
        push_u64(s, n / 10);
        push_digit(s, n % 10);
        assert(final(s)@ =~= old(s)@ + dec_seq(n as nat));
    }
}

/// Appends the decimal form of `v`, with a minus sign when negative.
pub fn push_i64(s: &mut String, v: i64)
    requires
        v > i64::MIN,
    ensures
        final(s)@ == old(s)@ + int_seq(v as int),
{
    if v < 0 {
        proof {
            reveal_strlit("-");
        }
        s.append("-");
        assert(s@ =~= old(s)@ + seq!['-']);
        push_u64(s, (-v) as u64);
        assert(final(s)@ =~= old(s)@ + int_seq(v as int));
    } else {
        push_u64(s, v as u64);
    }
}

/// Appends `n` zero-padded to at least two digits.
pub fn push_pad2(s: &mut String, n: u64)
    ensures
        final(s)@ == old(s)@ + pad2_seq(n as nat),
{
    if n < 10 {
        proof {
            reveal_strlit("0");
        }
        s.append("0");
        assert(s@ =~= old(s)@ + seq!['0']);
        push_digit(s, n);
        assert(final(s)@ =~= old(s)@ + pad2_seq(n as nat));
    } else {
        push_u64(s, n);
    }
}

/// Appends the one-decimal form of `v` scaled by 1000, rounded half-up.
pub fn push_one_decimal(s: &mut String, v: u64)
    ensures
        final(s)@ == old(s)@ + one_decimal_seq(v as nat),
{
    let tenths: u64 = v / 100 + (if v % 100 >= 50 {
        1
    } else {
        0
    });
    push_u64(s, tenths / 10);
    proof {
        reveal_strlit(".");
    }
    s.append(".");
    push_digit(s, tenths % 10);
    assert(final(s)@ =~= old(s)@ + one_decimal_seq(v as nat));
}

/// Appends `piece` to `s`, left-padded with spaces to width `width`.
pub fn push_padded(s: &mut String, piece: &String, width: usize)
    ensures
        final(s)@ == old(s)@ + pad_left_seq(piece@, width as nat),
{
    let n = piece.as_str().unicode_len();
    if n < width {
        let mut i: usize = 0;
        while i < width - n
            invariant
                i <= width - n,
                n == piece@.len(),
                s@ == old(s)@ + spaces(i as nat),
            decreases width - n - i,
        {
            proof {
                reveal_strlit(" ");
            }
            s.append(" ");
            assert(s@ =~= old(s)@ + spaces((i + 1) as nat));
            i = i + 1;
        }
        s.append(piece.as_str());
        assert(final(s)@ =~= old(s)@ + pad_left_seq(piece@, width as nat));
    } else {
        s.append(piece.as_str());
    }
}

/// The decimal string of `n` as a fresh `String`.
pub fn u64_string(n: u64) -> (s: String)
    ensures
        s@ == dec_seq(n as nat),
{
    let mut s = String::new();
    push_u64(&mut s, n);
    assert(s@ =~= dec_seq(n as nat));
    s
}

/// The one-decimal scaled form of `v` as a fresh `String`.
pub fn one_decimal_string(v: u64) -> (s: String)
    ensures
        s@ == one_decimal_seq(v as nat),
{
    let mut s = String::new();
    push_one_decimal(&mut s, v);
    assert(s@ =~= one_decimal_seq(v as nat));
    s
}

} // verus!
