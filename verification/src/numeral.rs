//! Positional numerals: the digits of a natural number in a base, and the
//! number that a run of digits stands for.

use vstd::prelude::*;
use vstd::string::StringSliceAdditionalSpecFns;

verus! {

/// The character that writes the digit `d`: `0`-`9`, then lowercase letters.
pub open spec fn digit_char(d: nat) -> char
    recommends
        d < 36,
{
    if d < 10 {
        ((d + 48) as u8) as char
    } else {
        ((d + 87) as u8) as char
    }
}

/// The digit that `c` writes in `base`, if it writes one. Letters count in
/// either case, `a` and `A` both standing for ten.
pub open spec fn digit_value(c: char, base: nat) -> Option<nat> {
    let v: int = if '0' <= c <= '9' {
        c as int - 48
    } else if 'a' <= c <= 'z' {
        c as int - 87
    } else if 'A' <= c <= 'Z' {
        c as int - 55
    } else {
        36
    };
    if v < base {
        Some(v as nat)
    } else {
        None
    }
}

/// The numeral of `n` in `base`, most significant digit first, without
/// leading zeros; zero is written as the single digit `0`.
pub open spec fn numeral(n: nat, base: nat) -> Seq<char>
    recommends
        2 <= base <= 36,
    decreases n,
{
    if n < base || base < 2 {
        seq![digit_char(n)]
    } else {
        proof {
            lemma_quotient_smaller(n, base);
        }
        numeral(n / base, base).push(digit_char(n % base))
    }
}

/// Dividing by a base of at least two makes a positive number smaller.
pub proof fn lemma_quotient_smaller(n: nat, base: nat)
    requires
        2 <= base <= n,
    ensures
        n / base < n,
{
    assert(n / base < n) by (nonlinear_arith)
        requires
            2 <= base <= n,
    ;
}

/// The decimal numeral of `n`.
pub open spec fn decimal(n: nat) -> Seq<char> {
    numeral(n, 10)
}

/// The lowercase hexadecimal numeral of `n`.
pub open spec fn hexadecimal(n: nat) -> Seq<char> {
    numeral(n, 16)
}

/// Every character of `s` writes a digit in `base`.
pub open spec fn all_digits(s: Seq<char>, base: nat) -> bool {
    forall|i: int| 0 <= i < s.len() ==> (#[trigger] digit_value(s[i], base)) is Some
}

/// The number that the digits `s` stand for in `base`, most significant
/// first. A character that is no digit counts as zero.
pub open spec fn digits_value(s: Seq<char>, base: nat) -> nat
    decreases s.len(),
{
    if s.len() == 0 {
        0
    } else {
        let d = match digit_value(s.last(), base) {
            Some(v) => v,
            None => 0,
        };
        digits_value(s.drop_last(), base) * base + d
    }
}

/// What an unsigned integer parser that admits values up to `max` makes of
/// `s`: an optional `+`, then one or more digits of `base` whose value does
/// not exceed `max`. Anything else is no number.
pub open spec fn unsigned_value(s: Seq<char>, base: nat, max: nat) -> Option<nat> {
    let digits = if s.len() > 0 && s[0] == '+' {
        s.drop_first()
    } else {
        s
    };
    if digits.len() > 0 && all_digits(digits, base) && digits_value(digits, base) <= max {
        Some(digits_value(digits, base))
    } else {
        None
    }
}

/// A one-character string that writes the digit `d`.
fn digit_str(d: u32) -> (s: &'static str)
    requires
        d < 36,
    ensures
        s@ == seq![digit_char(d as nat)],
{
    proof {
        reveal_strlit("0");
        reveal_strlit("1");
        reveal_strlit("2");
        reveal_strlit("3");
        reveal_strlit("4");
        reveal_strlit("5");
        reveal_strlit("6");
        reveal_strlit("7");
        reveal_strlit("8");
        reveal_strlit("9");
        reveal_strlit("a");
        reveal_strlit("b");
        reveal_strlit("c");
        reveal_strlit("d");
        reveal_strlit("e");
        reveal_strlit("f");
        reveal_strlit("g");
        reveal_strlit("h");
        reveal_strlit("i");
        reveal_strlit("j");
        reveal_strlit("k");
        reveal_strlit("l");
        reveal_strlit("m");
        reveal_strlit("n");
        reveal_strlit("o");
        reveal_strlit("p");
        reveal_strlit("q");
        reveal_strlit("r");
        reveal_strlit("s");
        reveal_strlit("t");
        reveal_strlit("u");
        reveal_strlit("v");
        reveal_strlit("w");
        reveal_strlit("x");
        reveal_strlit("y");
        reveal_strlit("z");
    }
    let s = if d == 0 {
        "0"
    } else if d == 1 {
        "1"
    } else if d == 2 {
        "2"
    } else if d == 3 {
        "3"
    } else if d == 4 {
        "4"
    } else if d == 5 {
        "5"
    } else if d == 6 {
        "6"
    } else if d == 7 {
        "7"
    } else if d == 8 {
        "8"
    } else if d == 9 {
        "9"
    } else if d == 10 {
        "a"
    } else if d == 11 {
        "b"
    } else if d == 12 {
        "c"
    } else if d == 13 {
        "d"
    } else if d == 14 {
        "e"
    } else if d == 15 {
        "f"
    } else if d == 16 {
        "g"
    } else if d == 17 {
        "h"
    } else if d == 18 {
        "i"
    } else if d == 19 {
        "j"
    } else if d == 20 {
        "k"
    } else if d == 21 {
        "l"
    } else if d == 22 {
        "m"
    } else if d == 23 {
        "n"
    } else if d == 24 {
        "o"
    } else if d == 25 {
        "p"
    } else if d == 26 {
        "q"
    } else if d == 27 {
        "r"
    } else if d == 28 {
        "s"
    } else if d == 29 {
        "t"
    } else if d == 30 {
        "u"
    } else if d == 31 {
        "v"
    } else if d == 32 {
        "w"
    } else if d == 33 {
        "x"
    } else if d == 34 {
        "y"
    } else {
        "z"
    };
    assert(s@ =~= seq![digit_char(d as nat)]);
    s
}

/// Appends the numeral of `n` in `base` to `out`.
pub fn push_numeral(out: &mut String, n: u32, base: u32)
    requires
        2 <= base <= 36,
    ensures
        final(out)@ == old(out)@ + numeral(n as nat, base as nat),
    decreases n,
{
    if n >= base {
        proof {
            lemma_quotient_smaller(n as nat, base as nat);
        }
        push_numeral(out, n / base, base);
    }
    proof {
        if n < base {
            assert(n % base == n) by (nonlinear_arith)
                requires
                    0 <= n < base,
            ;
        }
    }
    out.append(digit_str(n % base));
    assert(out@ =~= old(out)@ + numeral(n as nat, base as nat));
}

/// A digit's character writes that digit again.
pub proof fn lemma_digit_char_value(d: nat, base: nat)
    requires
        d < base <= 36,
    ensures
        digit_value(digit_char(d), base) == Some(d),
        digit_char(d) != '+',
        digit_char(d) != '#',
        '0' <= digit_char(d) <= '9' || 'a' <= digit_char(d) <= 'z',
{
}

/// Appending a character multiplies the value by the base and adds the
/// character's digit.
pub proof fn lemma_digits_value_push(s: Seq<char>, c: char, base: nat)
    ensures
        digits_value(s.push(c), base) == digits_value(s, base) * base + match digit_value(
            c,
            base,
        ) {
            Some(v) => v,
            None => 0,
        },
{
    assert(s.push(c).drop_last() =~= s);
    assert(s.push(c).last() == c);
}

/// A prefix is worth no more than the whole run.
pub proof fn lemma_digits_value_prefix(s: Seq<char>, k: int, base: nat)
    requires
        0 <= k <= s.len(),
        1 <= base,
    ensures
        digits_value(s.take(k), base) <= digits_value(s, base),
    decreases s.len() - k,
{
    if k == s.len() {
        assert(s.take(k) =~= s);
    } else {
        lemma_digits_value_prefix(s.drop_last(), k, base);
        assert(s.drop_last().take(k) =~= s.take(k));
        assert(digits_value(s.drop_last(), base) <= digits_value(s.drop_last(), base) * base)
            by (nonlinear_arith)
            requires
                1 <= base,
        ;
    }
}

/// A numeral consists of digits, does not begin with a sign, and is worth
/// the number it was written for.
pub proof fn lemma_numeral_value(n: nat, base: nat)
    requires
        2 <= base <= 36,
    ensures
        numeral(n, base).len() > 0,
        all_digits(numeral(n, base), base),
        digits_value(numeral(n, base), base) == n,
    decreases n,
{
    if n < base {
        lemma_digit_char_value(n, base);
        lemma_digits_value_push(Seq::empty(), digit_char(n), base);
        assert(numeral(n, base) =~= Seq::<char>::empty().push(digit_char(n)));
        assert(digits_value(Seq::<char>::empty(), base) == 0);
        assert(0 * base == 0) by (nonlinear_arith);
    } else {
        lemma_quotient_smaller(n, base);
        let q = n / base;
        let r = n % base;
        assert(r < base && q * base + r == n) by (nonlinear_arith)
            requires
                q == n / base,
                r == n % base,
                2 <= base,
        ;
        lemma_numeral_value(q, base);
        lemma_digit_char_value(r, base);
        lemma_digits_value_push(numeral(q, base), digit_char(r), base);
        assert forall|i: int| 0 <= i < numeral(n, base).len() implies (#[trigger] digit_value(
            numeral(n, base)[i],
            base,
        )) is Some by {
            if i < numeral(q, base).len() {
                assert(numeral(n, base)[i] == numeral(q, base)[i]);
            }
        }
    }
}

/// A numeral is written with the digits `0`-`9` and lowercase letters only.
pub proof fn lemma_numeral_chars(n: nat, base: nat)
    requires
        2 <= base <= 36,
    ensures
        forall|i: int|
            0 <= i < numeral(n, base).len() ==> {
                let c = #[trigger] numeral(n, base)[i];
                '0' <= c <= '9' || 'a' <= c <= 'z'
            },
    decreases n,
{
    if n < base {
        lemma_digit_char_value(n, base);
    } else {
        lemma_quotient_smaller(n, base);
        let q = n / base;
        let r = n % base;
        assert(r < base) by (nonlinear_arith)
            requires
                r == n % base,
                2 <= base,
        ;
        lemma_numeral_chars(q, base);
        lemma_digit_char_value(r, base);
        assert forall|i: int| 0 <= i < numeral(n, base).len() implies {
            let c = #[trigger] numeral(n, base)[i];
            '0' <= c <= '9' || 'a' <= c <= 'z'
        } by {
            if i < numeral(q, base).len() {
                assert(numeral(n, base)[i] == numeral(q, base)[i]);
            }
        }
    }
}

/// Different numbers have different numerals.
pub proof fn lemma_numeral_injective(a: nat, b: nat, base: nat)
    requires
        2 <= base <= 36,
        numeral(a, base) == numeral(b, base),
    ensures
        a == b,
{
    lemma_numeral_value(a, base);
    lemma_numeral_value(b, base);
}

/// A parser that admits values up to `max` reads a numeral back as the
/// number it was written for, provided the number is within `max`.
pub proof fn lemma_numeral_round_trip(n: nat, base: nat, max: nat)
    requires
        2 <= base <= 36,
        n <= max,
    ensures
        unsigned_value(numeral(n, base), base, max) == Some(n),
{
    lemma_numeral_value(n, base);
    let s = numeral(n, base);
    assert(digit_value(s[0], base) is Some);
}

/// The digit that the ASCII byte `b` writes in `base`, if it writes one.
fn digit_of(b: u8, base: u32) -> (r: Option<u32>)
    requires
        b < 128,
        base <= 36,
    ensures
        match digit_value(b as char, base as nat) {
            Some(v) => r == Some(v as u32),
            None => r is None,
        },
{
    let v: u32 = if 48 <= b && b <= 57 {
        (b - 48) as u32
    } else if 97 <= b && b <= 122 {
        (b - 87) as u32
    } else if 65 <= b && b <= 90 {
        (b - 55) as u32
    } else {
        36
    };
    if v < base {
        Some(v)
    } else {
        None
    }
}

/// Text with a character that is neither a leading sign nor a digit is no
/// number.
pub proof fn lemma_not_a_number(s: Seq<char>, i: int, base: nat, max: nat)
    requires
        0 <= i < s.len(),
        s[i] != '+',
        digit_value(s[i], base) is None,
    ensures
        unsigned_value(s, base, max) is None,
{
    if s[0] == '+' {
        assert(s.drop_first()[i - 1] == s[i]);
    }
}

/// Reads `s` as an unsigned integer in `base` that may not exceed `max`: an
/// optional `+` and then digits, with nothing before, between or after.
pub fn parse_unsigned(s: &str, base: u32, max: u32) -> (r: Option<u32>)
    requires
        2 <= base <= 36,
    ensures
        match unsigned_value(s@, base as nat, max as nat) {
            Some(v) => r == Some(v as u32),
            None => r is None,
        },
{
    broadcast use vstd::string::is_ascii_spec_bytes;

    if !s.is_ascii() {
        proof {
            let i = choose|i: int| 0 <= i < s@.len() && !('\0' <= #[trigger] s@[i] <= '\u{7f}');
            lemma_not_a_number(s@, i, base as nat, max as nat);
        }
        return None;
    }
    let bytes = s.as_bytes();
    let n = bytes.len();
    assert(n == s@.len());
    let mut i: usize = 0;
    if i < n {
        let b = bytes[i];
        assert(s@[i as int] == b as char);
        if b == 43 {
            i += 1;
        }
    }
    let first = i;
    let ghost digits = s@.skip(first as int);
    assert(digits =~= if s@.len() > 0 && s@[0] == '+' {
        s@.drop_first()
    } else {
        s@
    });
    if i >= n {
        return None;
    }
    let ghost wanted = unsigned_value(s@, base as nat, max as nat);
    let mut acc: u64 = 0;
    assert(s@.subrange(first as int, i as int) =~= Seq::<char>::empty());
    while i < n
        invariant
            s.is_ascii(),
            bytes@ == s.spec_bytes(),
            n == s@.len(),
            first <= i <= n,
            2 <= base <= 36,
            digits == s@.skip(first as int),
            wanted == unsigned_value(s@, base as nat, max as nat),
            wanted == if all_digits(digits, base as nat) && digits_value(digits, base as nat)
                <= max {
                Some(digits_value(digits, base as nat))
            } else {
                None
            },
            all_digits(s@.subrange(first as int, i as int), base as nat),
            acc == digits_value(s@.subrange(first as int, i as int), base as nat),
            acc <= max,
        decreases n - i,
    {
        let b = bytes[i];
        let ghost c = s@[i as int];
        let ghost seen = s@.subrange(first as int, i as int);
        assert(c == b as char);
        assert(digits[i - first] == c);
        match digit_of(b, base) {
            None => {
                assert(wanted is None);
                return None;
            },
            Some(d) => {
                proof {
                    lemma_digits_value_push(seen, c, base as nat);
                    assert(seen.push(c) =~= s@.subrange(first as int, i + 1));
                    assert(seen.push(c) =~= digits.take(i + 1 - first));
                    assert(acc * base + d <= 0xffff_ffff * 36 + 36) by (nonlinear_arith)
                        requires
                            acc <= 0xffff_ffff,
                            base <= 36,
                            d < 36,
                    ;
                }
                acc = acc * (base as u64) + (d as u64);
                if acc > max as u64 {
                    proof {
                        lemma_digits_value_prefix(digits, i + 1 - first, base as nat);
                    }
                    assert(wanted is None);
                    return None;
                }
            },
        }
        i += 1;
    }
    assert(s@.subrange(first as int, n as int) =~= digits);
    Some(acc as u32)
}

} // verus!
