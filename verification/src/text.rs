//! Text helpers shared by the request builders and the link-header
//! grammar: decimal numerals and positional string comparison.

use vstd::prelude::*;

verus! {

/// The decimal digit character for `d`, when `0 <= d <= 9`.
pub open spec fn digit_char(d: int) -> char {
    if d == 0 {
        '0'
    } else if d == 1 {
        '1'
    } else if d == 2 {
        '2'
    } else if d == 3 {
        '3'
    } else if d == 4 {
        '4'
    } else if d == 5 {
        '5'
    } else if d == 6 {
        '6'
    } else if d == 7 {
        '7'
    } else if d == 8 {
        '8'
    } else {
        '9'
    }
}

/// Whether `c` is a decimal digit character.
pub open spec fn is_digit(c: char) -> bool {
    '0' <= c && c <= '9'
}

/// The numeric value of a digit character.
pub open spec fn digit_val(c: char) -> int {
    c as int - '0' as int
}

/// The decimal numeral of `n`, most significant digit first, with no
/// leading zeros (the numeral of zero is "0").
pub open spec fn spec_decimal(n: nat) -> Seq<char>
    decreases n,
{
    if n < 10 {
        seq![digit_char(n as int)]
    } else {
        spec_decimal(n / 10).push(digit_char((n % 10) as int))
    }
}

/// The number denoted by a sequence of digit characters, read in the
/// usual positional way.
pub open spec fn digits_value(s: Seq<char>) -> nat
    decreases s.len(),
{
    if s.len() == 0 {
        0
    } else {
        (digits_value(s.drop_last()) * 10 + digit_val(s.last())) as nat
    }
}

/// The decimal numeral is never empty, consists of digits only, and
/// denotes the number it was built from: a page number written into
/// a request URL and read back out of a link header is the same
/// number.
pub proof fn lemma_decimal_value(n: nat)
    ensures
        spec_decimal(n).len() >= 1,
        forall|i: int| 0 <= i < spec_decimal(n).len() ==> is_digit(#[trigger] spec_decimal(n)[i]),
        digits_value(spec_decimal(n)) == n,
    decreases n,
{
    if n < 10 {
        assert(digits_value(spec_decimal(n).drop_last()) == 0);
    } else {
        lemma_decimal_value(n / 10);
        assert(spec_decimal(n).drop_last() =~= spec_decimal(n / 10));
    }
}

/// Appending a digit multiplies the denoted value by ten and adds the
/// digit, so a longer digit run never denotes less than its prefix.
pub proof fn lemma_digits_value_prefix_le(s: Seq<char>, i: int)
    requires
        0 <= i <= s.len(),
        forall|j: int| 0 <= j < s.len() ==> is_digit(#[trigger] s[j]),
    ensures
        digits_value(s.subrange(0, i)) <= digits_value(s),
    decreases s.len() - i,
{
    if i < s.len() {
        lemma_digits_value_prefix_le(s.drop_last(), i);
        assert(s.drop_last().subrange(0, i) =~= s.subrange(0, i));
    } else {
        assert(s.subrange(0, i) =~= s);
    }
}

fn digit_str(d: u64) -> (s: &'static str)
    requires
        d < 10,
    ensures
        s@ =~= seq![digit_char(d as int)],
{
    proof {
        reveal_strlit("0");
        reveal_strlit("1");
        reveal_strlit("2");
        reveal_strlit("3");
        reveal_strlit("4");
        reveal_strlit("5");
        reveal_strlit("6");
        reveal_strlit("7");
        reveal_strlit("8");
        reveal_strlit("9");
    }
    match d {
        0 => "0",
        1 => "1",
        2 => "2",
        3 => "3",
        4 => "4",
        5 => "5",
        6 => "6",
        7 => "7",
        8 => "8",
        _ => "9",
    }
}

/// Renders `n` in decimal.
pub fn u64_to_string(n: u64) -> (s: String)
    ensures
        s@ == spec_decimal(n as nat),
    decreases n,
{
    if n < 10 {
        let s = String::from_str(digit_str(n));
        proof {
            assert(s@ =~= spec_decimal(n as nat));
        }
        s
    } else {
        let mut s = u64_to_string(n / 10);
        s.append(digit_str(n % 10));
        proof {
            assert(s@ =~= spec_decimal(n as nat));
        }
        s
    }
}

/// Whether `pat` occurs in `s` starting at position `pos`.
pub fn str_eq_at(s: &str, pos: usize, pat: &str) -> (b: bool)
    requires
        pos + pat@.len() <= s@.len(),
        pos + pat@.len() <= usize::MAX,
    ensures
        b <==> s@.subrange(pos as int, pos as int + pat@.len() as int) == pat@,
{
    let m: usize = pat.unicode_len();
    let mut i: usize = 0;
    while i < m
        invariant
            m == pat@.len(),
            0 <= i <= m,
            pos + m <= s@.len(),
            pos + m <= usize::MAX,
            forall|j: int| 0 <= j < i ==> s@[pos + j] == pat@[j],
        decreases m - i,
    {
        if s.get_char(pos + i) != pat.get_char(i) {
            proof {
                assert(s@.subrange(pos as int, pos as int + m as int)[i as int] == s@[pos + i]);
            }
            return false;
        }
        i += 1;
    }
    proof {
        assert(s@.subrange(pos as int, pos as int + m as int) =~= pat@);
    }
    true
}

} // verus!
