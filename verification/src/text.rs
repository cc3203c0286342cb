//! Small string utilities shared by the compiler: string equality, ASCII
//! lowercasing, and decimal rendering / parsing of repeat counts.

use vstd::prelude::*;
use vstd::string::StrSliceExecFns;
use vstd::string::StringExecFns;

verus! {

/// Appends one character to a string.
///
/// Relies on `String::push`: appends the given character to the end of the
/// string.
#[verifier::external_body]
pub fn push_char(s: &mut String, c: char)
    ensures
        final(s)@ == old(s)@.push(c),
{
    s.push(c)
}

/// Compares two string slices by their character sequences.
pub fn str_eq(a: &str, b: &str) -> (r: bool)
    ensures
        r == (a@ == b@),
{
    let sa: String = a.to_owned();
    let sb: String = b.to_owned();
    sa == sb
}

/// The ASCII-lowercased counterpart of a character: letters `A` through `Z`
/// map to `a` through `z`, every other character is unchanged.
pub open spec fn lower_char(c: char) -> char {
    match c {
        'A' => 'a',
        'B' => 'b',
        'C' => 'c',
        'D' => 'd',
        'E' => 'e',
        'F' => 'f',
        'G' => 'g',
        'H' => 'h',
        'I' => 'i',
        'J' => 'j',
        'K' => 'k',
        'L' => 'l',
        'M' => 'm',
        'N' => 'n',
        'O' => 'o',
        'P' => 'p',
        'Q' => 'q',
        'R' => 'r',
        'S' => 's',
        'T' => 't',
        'U' => 'u',
        'V' => 'v',
        'W' => 'w',
        'X' => 'x',
        'Y' => 'y',
        'Z' => 'z',
        _ => c,
    }
}

/// The view of `s` lowercased character by character.
pub open spec fn lower_seq(s: Seq<char>) -> Seq<char> {
    s.map_values(|c: char| lower_char(c))
}

/// Lowercases one character, ASCII letters only.
pub fn to_lower_char(c: char) -> (r: char)
    ensures
        r == lower_char(c),
{
    match c {
        'A' => 'a',
        'B' => 'b',
        'C' => 'c',
        'D' => 'd',
        'E' => 'e',
        'F' => 'f',
        'G' => 'g',
        'H' => 'h',
        'I' => 'i',
        'J' => 'j',
        'K' => 'k',
        'L' => 'l',
        'M' => 'm',
        'N' => 'n',
        'O' => 'o',
        'P' => 'p',
        'Q' => 'q',
        'R' => 'r',
        'S' => 's',
        'T' => 't',
        'U' => 'u',
        'V' => 'v',
        'W' => 'w',
        'X' => 'x',
        'Y' => 'y',
        'Z' => 'z',
        _ => c,
    }
}

/// Whether a character is a decimal digit.
pub open spec fn is_digit(c: char) -> bool {
    '0' <= c && c <= '9'
}

/// The numeric value of a decimal digit character.
pub open spec fn digit_val(c: char) -> int {
    c as int - '0' as int
}

/// Whether every character of `s` is a decimal digit.
pub open spec fn is_digit_seq(s: Seq<char>) -> bool {
    forall|i: int| 0 <= i < s.len() ==> is_digit(s[i])
}

/// The number denoted by a sequence of decimal digits (0 when empty).
pub open spec fn dec_value(s: Seq<char>) -> int
    decreases s.len(),
{
    if s.len() == 0 {
        0
    } else {
        dec_value(s.drop_last()) * 10 + digit_val(s.last())
    }
}

/// The canonical decimal rendering of a natural number: no sign, no leading
/// zeros (except for zero itself).
pub open spec fn dec_digits(n: nat) -> Seq<char>
    decreases n,
    via dec_digits_decreases
{
    if n < 10 {
        seq![digit_char(n as int)]
    } else {
        dec_digits(n / 10).push(digit_char((n % 10) as int))
    }
}

#[via_fn]
proof fn dec_digits_decreases(n: nat) {
    assert(n >= 10 ==> n / 10 < n) by (nonlinear_arith);
}

/// The digit character for a value between 0 and 9.
pub open spec fn digit_char(d: int) -> char {
    if d == 0 {
        '0'
    } else if d == 1 {
        '1'
    } else if d == 2 {
        '2'
    } else if d == 3 {
        '3'
    } else if d == 4 {
        '4'
    } else if d == 5 {
        '5'
    } else if d == 6 {
        '6'
    } else if d == 7 {
        '7'
    } else if d == 8 {
        '8'
    } else {
        '9'
    }
}

/// The digit character for a value between 0 and 9.
pub fn to_digit_char(d: usize) -> (r: char)
    requires
        d < 10,
    ensures
        r == digit_char(d as int),
{
    match d {
        0 => '0',
        1 => '1',
        2 => '2',
        3 => '3',
        4 => '4',
        5 => '5',
        6 => '6',
        7 => '7',
        8 => '8',
        _ => '9',
    }
}

/// Renders a number in decimal.
pub fn render_dec(n: usize) -> (r: String)
    ensures
        r@ == dec_digits(n as nat),
    decreases n,
{
    if n < 10 {
        let mut s = String::new();
        push_char(&mut s, to_digit_char(n));
        s
    } else {
        proof {
            assert(n / 10 < n) by (nonlinear_arith)
                requires
                    n >= 10,
            ;
        }
        let mut s = render_dec(n / 10);
        push_char(&mut s, to_digit_char(n % 10));
        s
    }
}

/// A digit sequence denotes a value no smaller than any of its prefixes
/// denote.
pub proof fn lemma_dec_value_prefix_le(s: Seq<char>, i: int, j: int)
    requires
        is_digit_seq(s),
        0 <= i <= j <= s.len(),
    ensures
        dec_value(s.take(i)) <= dec_value(s.take(j)),
    decreases j - i,
{
    if i < j {
        lemma_dec_value_prefix_le(s, i, j - 1);
        assert(s.take(j).drop_last() =~= s.take(j - 1));
        assert(dec_value(s.take(j - 1)) >= 0) by {
            lemma_dec_value_nonneg(s.take(j - 1));
        };
        assert(dec_value(s.take(j - 1)) * 10 >= dec_value(s.take(j - 1))) by (nonlinear_arith)
            requires
                dec_value(s.take(j - 1)) >= 0,
        ;
    }
}

/// A digit sequence denotes a non-negative value.
pub proof fn lemma_dec_value_nonneg(s: Seq<char>)
    requires
        is_digit_seq(s),
    ensures
        dec_value(s) >= 0,
    decreases s.len(),
{
    if s.len() > 0 {
        assert(is_digit_seq(s.drop_last()));
        lemma_dec_value_nonneg(s.drop_last());
        assert(dec_value(s.drop_last()) * 10 >= 0) by (nonlinear_arith)
            requires
                dec_value(s.drop_last()) >= 0,
        ;
    }
}

/// The digit characters denote their own values.
proof fn lemma_digit_char_val(d: int)
    requires
        0 <= d < 10,
    ensures
        is_digit(digit_char(d)),
        digit_val(digit_char(d)) == d,
{
}

/// The decimal rendering of a number is a non-empty digit run that denotes
/// the number itself.
pub proof fn lemma_dec_digits_value(n: nat)
    ensures
        is_digit_seq(dec_digits(n)),
        dec_digits(n).len() >= 1,
        dec_value(dec_digits(n)) == n,
    decreases n,
{
    if n < 10 {
        lemma_digit_char_val(n as int);
        let s = dec_digits(n);
        assert(s =~= seq![digit_char(n as int)]);
        assert(s.drop_last() =~= Seq::<char>::empty());
        assert(dec_value(s.drop_last()) == 0);
        assert(dec_value(s) == dec_value(s.drop_last()) * 10 + digit_val(s.last()));
    } else {
        assert(n / 10 < n) by (nonlinear_arith)
            requires
                n >= 10,
        ;
        lemma_dec_digits_value(n / 10);
        let s = dec_digits(n);
        assert(s =~= dec_digits(n / 10).push(digit_char((n % 10) as int)));
        assert(s.drop_last() =~= dec_digits(n / 10));
        assert(s.last() == digit_char((n % 10) as int));
        lemma_digit_char_val((n % 10) as int);
        assert(dec_value(s) == dec_value(s.drop_last()) * 10 + digit_val(s.last()));
        assert(n == (n / 10) * 10 + n % 10) by (nonlinear_arith);
        assert(is_digit_seq(s)) by {
            assert(forall|i: int| 0 <= i < s.len() - 1 ==> s[i] == dec_digits((n / 10) as nat)[i]);
        };
    }
}

/// Two distinct numbers render to distinct decimal strings.
pub proof fn lemma_dec_digits_injective(a: nat, b: nat)
    requires
        dec_digits(a) == dec_digits(b),
    ensures
        a == b,
{
    lemma_dec_digits_value(a);
    lemma_dec_digits_value(b);
}

/// The result of parsing a string as an unsigned decimal repeat count:
/// defined exactly when the string is a non-empty run of digits whose value
/// fits the machine word.
pub open spec fn parse_dec_spec(s: Seq<char>) -> Option<int> {
    if s.len() > 0 && is_digit_seq(s) && dec_value(s) <= usize::MAX as int {
        Some(dec_value(s))
    } else {
        None
    }
}

/// Parses a string as an unsigned decimal number.
pub fn parse_dec(s: &str) -> (r: Option<usize>)
    ensures
        match r {
            Some(v) => parse_dec_spec(s@) == Some(v as int),
            None => parse_dec_spec(s@) is None,
        },
{
    let n = s.unicode_len();
    if n == 0 {
        return None;
    }
    let mut acc: usize = 0;
    let mut i: usize = 0;
    while i < n
        invariant
            n == s@.len(),
            0 < n,
            i <= n,
            is_digit_seq(s@.take(i as int)),
            acc as int == dec_value(s@.take(i as int)),
        decreases n - i,
    {
        let c = s.get_char(i);
        if c < '0' || c > '9' {
            return None;
        }
        let d: usize = (c as u32 - 48) as usize;
        proof {
            assert(d == digit_val(s@[i as int]));
            assert(s@.take(i + 1 as int).drop_last() =~= s@.take(i as int));
        }
        if acc > (usize::MAX - d) / 10 {
            proof {
                assert(dec_value(s@.take(i + 1 as int)) > usize::MAX as int) by (nonlinear_arith)
                    requires
                        dec_value(s@.take(i + 1 as int)) == acc as int * 10 + d,
                        acc > (usize::MAX - d) / 10,
                        d < 10,
                        acc >= 0,
                ;
                assert(is_digit_seq(s@.take(i + 1 as int)));
                if is_digit_seq(s@) {
                    lemma_dec_value_prefix_le(s@, i + 1, n as int);
                    assert(s@.take(n as int) =~= s@);
                }
            }
            return None;
        }
        proof {
            assert(acc * 10 + d <= usize::MAX as int) by (nonlinear_arith)
                requires
                    acc <= (usize::MAX - d) / 10,
                    d < 10,
                    acc >= 0,
            ;
        }
        acc = acc * 10 + d;
        i = i + 1;
    }
    proof {
        assert(s@.take(n as int) =~= s@);
    }
    Some(acc)
}

/// Lowercases a string, ASCII letters only.
pub fn to_ascii_lower(s: &str) -> (r: String)
    ensures
        r@ == lower_seq(s@),
{
    let n = s.unicode_len();
    let mut out = String::new();
    let mut i: usize = 0;
    while i < n
        invariant
            n == s@.len(),
            i <= n,
            out@ == lower_seq(s@.take(i as int)),
        decreases n - i,
    {
        let c = s.get_char(i);
        push_char(&mut out, to_lower_char(c));
        proof {
            assert(s@.take(i + 1 as int).map_values(|ch: char| lower_char(ch)) =~= s@.take(
                i as int,
            ).map_values(|ch: char| lower_char(ch)).push(lower_char(s@[i as int])));
        }
        i = i + 1;
    }
    proof {
        assert(s@.take(n as int) =~= s@);
    }
    out
}

} // verus!
