//! Verified text building blocks: decimal numerals, fixed-point rendering,
//! and string comparison over character sequences.

use vstd::prelude::*;
use vstd::string::StringExecFns;
use vstd::string::StrSliceExecFns;
use vstd::arithmetic::div_mod::{lemma_div_pos_is_pos, lemma_div_decreases};

verus! {

/// The character for one decimal digit.
pub open spec fn digit_char(d: int) -> char {
    if d == 0 {
        '0'
    } else if d == 1 {
        '1'
    } else if d == 2 {
        '2'
    } else if d == 3 {
        '3'
    } else if d == 4 {
        '4'
    } else if d == 5 {
        '5'
    } else if d == 6 {
        '6'
    } else if d == 7 {
        '7'
    } else if d == 8 {
        '8'
    } else {
        '9'
    }
}

/// The decimal numeral of `n`, most significant digit first, without
/// leading zeros (the numeral of zero is "0").
pub open spec fn dec_rep(n: int) -> Seq<char>
    decreases n,
{
    if n < 10 {
        seq![digit_char(n)]
    } else {
        dec_rep(n / 10).push(digit_char(n % 10))
    }
}

/// A value scaled by 100, rendered with two decimal places.
pub open spec fn fixed2_rep(x: int) -> Seq<char> {
    dec_rep(x / 100) + seq!['.', digit_char((x / 10) % 10), digit_char(x % 10)]
}

/// A value scaled by 10000, rendered with four decimal places.
pub open spec fn fixed4_rep(x: int) -> Seq<char> {
    dec_rep(x / 10000)
        + seq![
        '.',
        digit_char((x / 1000) % 10),
        digit_char((x / 100) % 10),
        digit_char((x / 10) % 10),
        digit_char(x % 10),
    ]
}

/// One decimal digit as a string slice.
fn digit_str(d: u128) -> (r: &'static str)
    requires
        d < 10,
    ensures
        r@ == seq![digit_char(d as int)],
{
    proof {
        reveal_strlit("0");
        reveal_strlit("1");
        reveal_strlit("2");
        reveal_strlit("3");
        reveal_strlit("4");
        reveal_strlit("5");
        reveal_strlit("6");
        reveal_strlit("7");
        reveal_strlit("8");
        reveal_strlit("9");
    }
    let r: &'static str = if d == 0 {
        "0"
    } else if d == 1 {
        "1"
    } else if d == 2 {
        "2"
    } else if d == 3 {
        "3"
    } else if d == 4 {
        "4"
    } else if d == 5 {
        "5"
    } else if d == 6 {
        "6"
    } else if d == 7 {
        "7"
    } else if d == 8 {
        "8"
    } else {
        "9"
    };
    proof {
        assert(r@ =~= seq![digit_char(d as int)]);
    }
    r
}

/// The decimal numeral of `n`.
pub fn u128_to_string(n: u128) -> (s: String)
    ensures
        s@ == dec_rep(n as int),
    decreases n,
{
    if n < 10 {
        let s = String::from_str(digit_str(n));
        proof {
            assert(s@ =~= dec_rep(n as int));
        }
        s
    } else {
        proof {
            lemma_div_pos_is_pos(n as int, 10);
            lemma_div_decreases(n as int, 10);
        }
        let mut s = u128_to_string(n / 10);
        s.append(digit_str(n % 10));
        proof {
            assert(s@ =~= dec_rep(n as int));
        }
        s
    }
}

/// The decimal numeral of `n`.
pub fn u64_to_string(n: u64) -> (s: String)
    ensures
        s@ == dec_rep(n as int),
{
    u128_to_string(n as u128)
}

/// Render `x` as a fixed-point number with two decimal places, reading
/// `x` as a value scaled by 100.
pub fn fixed2_to_string(x: u128) -> (s: String)
    ensures
        s@ == fixed2_rep(x as int),
{
    let mut s = u128_to_string(x / 100);
    proof {
        reveal_strlit(".");
    }
    s.append(".");
    s.append(digit_str((x / 10) % 10));
    s.append(digit_str(x % 10));
    proof {
        assert(s@ =~= fixed2_rep(x as int));
    }
    s
}

/// Render `x` as a fixed-point number with four decimal places, reading
/// `x` as a value scaled by 10000.
pub fn fixed4_to_string(x: u128) -> (s: String)
    ensures
        s@ == fixed4_rep(x as int),
{
    let mut s = u128_to_string(x / 10000);
    proof {
        reveal_strlit(".");
    }
    s.append(".");
    s.append(digit_str((x / 1000) % 10));
    s.append(digit_str((x / 100) % 10));
    s.append(digit_str((x / 10) % 10));
    s.append(digit_str(x % 10));
    proof {
        assert(s@ =~= fixed4_rep(x as int));
    }
    s
}

/// Character-wise string equality: decides whether the two views are the
/// same character sequence.
pub fn str_eq(a: &str, b: &str) -> (r: bool)
    ensures
        r == (a@ == b@),
{
    let alen = a.unicode_len();
    let blen = b.unicode_len();
    if alen != blen {
        assert(a@ != b@) by {
            assert(a@.len() != b@.len());
        }
        return false;
    }
    let mut i: usize = 0;
    while i < alen
        invariant
            alen == a@.len(),
            blen == b@.len(),
            alen == blen,
            i <= alen,
            forall|j: int| 0 <= j < i ==> a@[j] == b@[j],
        decreases alen - i,
    {
        if a.get_char(i) != b.get_char(i) {
            assert(a@[i as int] != b@[i as int]);
            return false;
        }
        i += 1;
    }
    proof {
        assert(a@ =~= b@);
    }
    true
}

/// String-wise form of `str_eq`.
pub fn string_eq(a: &String, b: &String) -> (r: bool)
    ensures
        r == (a@ == b@),
{
    str_eq(a.as_str(), b.as_str())
}

} // verus!
