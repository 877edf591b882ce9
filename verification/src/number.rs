//! Reading and writing unsigned integers as text, the way `str::parse`,
//! `from_str_radix` and `Display` do for Rust's unsigned integer types.
use vstd::prelude::*;

use crate::text::push_char;

verus! {

broadcast use vstd::seq_lib::group_seq_properties;

/// The value of digit `c` in base `radix` (2..=36), if `c` is one.
pub open spec fn digit_value(c: char, radix: nat) -> Option<nat> {
    let v: int = if '0' <= c <= '9' {
        c as int - '0' as int
    } else if 'a' <= c <= 'z' {
        c as int - 'a' as int + 10
    } else if 'A' <= c <= 'Z' {
        c as int - 'A' as int + 10
    } else {
        radix as int
    };
    if 0 <= v < radix {
        Some(v as nat)
    } else {
        None
    }
}

/// Every char of `ds` is a digit in base `radix`.
pub open spec fn all_digits(ds: Seq<char>, radix: nat) -> bool {
    forall|i: int| 0 <= i < ds.len() ==> (#[trigger] digit_value(ds[i], radix)) is Some
}

/// The number that the digits `ds` write in base `radix`.
pub open spec fn digits_value(ds: Seq<char>, radix: nat) -> nat
    decreases ds.len(),
{
    if ds.len() == 0 {
        0
    } else {
        digits_value(ds.drop_last(), radix) * radix + match digit_value(ds.last(), radix) {
            Some(d) => d,
            None => 0,
        }
    }
}

/// What `from_str_radix` gives for an unsigned type whose largest value is
/// `max`: an optional `+` followed by at least one digit, and nothing else,
/// whose value does not exceed `max`.
pub open spec fn spec_parse_unsigned(s: Seq<char>, radix: nat, max: nat) -> Option<nat> {
    let ds = if s.len() > 0 && s[0] == '+' {
        s.drop_first()
    } else {
        s
    };
    if ds.len() == 0 || !all_digits(ds, radix) || digits_value(ds, radix) > max {
        None
    } else {
        Some(digits_value(ds, radix))
    }
}

proof fn lemma_digits_value_prefix_grows(ds: Seq<char>, radix: nat, i: int, j: int)
    requires
        1 <= radix,
        0 <= i <= j <= ds.len(),
    ensures
        digits_value(ds.take(i), radix) <= digits_value(ds.take(j), radix),
    decreases j - i,
{
    if i < j {
        lemma_digits_value_prefix_grows(ds, radix, i, j - 1);
        assert(ds.take(j).drop_last() =~= ds.take(j - 1));
        let v = digits_value(ds.take(j - 1), radix);
        assert(v * radix >= v) by (nonlinear_arith)
            requires
                radix >= 1,
        ;
    }
}

/// The value of the char `c` as a digit in base `radix`.
pub fn digit_of(c: char, radix: u32) -> (r: Option<u32>)
    requires
        2 <= radix <= 36,
    ensures
        r matches Some(d) ==> digit_value(c, radix as nat) == Some(d as nat),
        r is None ==> digit_value(c, radix as nat) is None,
{
    let v: u32 = if '0' <= c && c <= '9' {
        (c as u32) - ('0' as u32)
    } else if 'a' <= c && c <= 'z' {
        (c as u32) - ('a' as u32) + 10
    } else if 'A' <= c && c <= 'Z' {
        (c as u32) - ('A' as u32) + 10
    } else {
        radix
    };
    if v < radix {
        Some(v)
    } else {
        None
    }
}

/// Parse `s` as an unsigned number in base `radix` that may not exceed `max`.
pub fn parse_unsigned(s: &Vec<char>, radix: u32, max: u64) -> (r: Option<u64>)
    requires
        2 <= radix <= 36,
    ensures
        r matches Some(v) ==> spec_parse_unsigned(s@, radix as nat, max as nat) == Some(v as nat),
        r is None ==> spec_parse_unsigned(s@, radix as nat, max as nat) is None,
{
    let ghost ds = if s@.len() > 0 && s@[0] == '+' {
        s@.drop_first()
    } else {
        s@
    };
    let start: usize = if s.len() > 0 && s[0] == '+' {
        1
    } else {
        0
    };
    if start == s.len() {
        return None;
    }
    let mut acc: u64 = 0;
    let mut i: usize = start;
    while i < s.len()
        invariant
            start <= i <= s.len(),
            2 <= radix <= 36,
            ds == s@.skip(start as int),
            ds == (if s@.len() > 0 && s@[0] == '+' {
                s@.drop_first()
            } else {
                s@
            }),
            acc as nat == digits_value(ds.take(i - start), radix as nat),
            acc <= max,
            all_digits(ds.take(i - start), radix as nat),
        decreases s.len() - i,
    {
        let ghost k: int = i - start;
        assert(ds.take(k + 1).drop_last() =~= ds.take(k));
        assert(ds[k] == s@[i as int]);
        match digit_of(s[i], radix) {
            None => {
                assert(!all_digits(ds, radix as nat)) by {
                    assert(digit_value(ds[k], radix as nat) is None);
                }
                return None;
            },
            Some(d) => {
                assert(digits_value(ds.take(k + 1), radix as nat) == acc * radix + d);
                if d as u64 > max || acc > (max - d as u64) / (radix as u64) {
                    proof {
                        assert(acc * radix + d > max) by (nonlinear_arith)
                            requires
                                d > max || acc > (max - d) / (radix as int),
                                acc >= 0,
                                radix >= 2,
                        ;
                        if all_digits(ds, radix as nat) {
                            lemma_digits_value_prefix_grows(ds, radix as nat, k + 1, ds.len() as int);
                            assert(ds.take(ds.len() as int) =~= ds);
                        }
                    }
                    return None;
                }
                assert(acc * radix + d <= max) by (nonlinear_arith)
                    requires
                        acc <= (max - d) / (radix as int),
                        radix >= 2,
                        d <= max,
                ;
                acc = acc * (radix as u64) + d as u64;
                assert(all_digits(ds.take(k + 1), radix as nat)) by {
                    assert forall|j: int| 0 <= j < k + 1 implies (#[trigger] digit_value(
                        ds.take(k + 1)[j],
                        radix as nat,
                    )) is Some by {
                        if j < k {
                            assert(ds.take(k + 1)[j] == ds.take(k)[j]);
                        }
                    }
                }
            },
        }
        i = i + 1;
    }
    assert(ds.take(ds.len() as int) =~= ds);
    Some(acc)
}

/// The decimal digits of `n`, most significant first, without leading zeros
/// (`0` is written `"0"`).
pub open spec fn decimal(n: nat) -> Seq<char>
    decreases n,
{
    if n < 10 {
        seq![decimal_digit(n)]
    } else {
        decimal(n / 10).push(decimal_digit(n % 10))
    }
}

/// The char of the decimal digit `d`.
pub open spec fn decimal_digit(d: nat) -> char {
    ('0' as nat + d) as char
}

/// The decimal digit of `d`, which is below ten.
fn digit_char(d: u64) -> (r: char)
    requires
        d < 10,
    ensures
        r == decimal_digit(d as nat),
{
    if d == 0 {
        '0'
    } else if d == 1 {
        '1'
    } else if d == 2 {
        '2'
    } else if d == 3 {
        '3'
    } else if d == 4 {
        '4'
    } else if d == 5 {
        '5'
    } else if d == 6 {
        '6'
    } else if d == 7 {
        '7'
    } else if d == 8 {
        '8'
    } else {
        '9'
    }
}

/// Appends the decimal digits of `n` to `out`.
pub fn push_decimal(out: &mut String, n: u64)
    ensures
        final(out)@ == old(out)@ + decimal(n as nat),
    decreases n,
{
    if n < 10 {
        push_char(out, digit_char(n));
        assert(decimal(n as nat) =~= seq![decimal_digit(n as nat)]);
    } else {
        push_decimal(out, n / 10);
        push_char(out, digit_char(n % 10));
        assert(old(out)@ + decimal(n as nat) =~= old(out)@ + decimal((n / 10) as nat) + seq![
            decimal_digit((n % 10) as nat),
        ]);
    }
}

/// `n` written in decimal, as `Display` writes it.
pub fn decimal_string(n: u64) -> (r: String)
    ensures
        r@ == decimal(n as nat),
{
    let mut out = String::new();
    push_decimal(&mut out, n);
    assert(out@ =~= decimal(n as nat));
    out
}

/// What `str::parse::<i64>` gives: an optional sign (`+` or `-`) followed by
/// at least one decimal digit, and nothing else, whose value lies in the
/// range of `i64`.
pub open spec fn spec_parse_i64(s: Seq<char>) -> Option<int> {
    if s.len() > 0 && s[0] == '-' {
        let ds = s.drop_first();
        if ds.len() == 0 || !all_digits(ds, 10) || digits_value(ds, 10) > 0x8000_0000_0000_0000 {
            None
        } else {
            Some(-digits_value(ds, 10))
        }
    } else {
        match spec_parse_unsigned(s, 10, 0x7fff_ffff_ffff_ffff) {
            Some(v) => Some(v as int),
            None => None,
        }
    }
}

/// Parse `s` as a signed 64-bit decimal number.
pub fn parse_i64(s: &str) -> (r: Option<i64>)
    ensures
        r matches Some(v) ==> spec_parse_i64(s@) == Some(v as int),
        r is None ==> spec_parse_i64(s@) is None,
{
    let cs = crate::text::chars_of(s);
    if cs.len() > 0 && cs[0] == '-' {
        let mut ds: Vec<char> = Vec::new();
        let mut i: usize = 1;
        while i < cs.len()
            invariant
                1 <= i <= cs.len(),
                ds@ == cs@.subrange(1, i as int),
            decreases cs.len() - i,
        {
            ds.push(cs[i]);
            i = i + 1;
        }
        assert(ds@ =~= s@.drop_first());
        if ds.len() == 0 || ds[0] == '+' {
            proof {
                if ds@.len() > 0 {
                    assert(digit_value(ds@[0], 10) is None);
                }
            }
            return None;
        }
        match parse_unsigned(&ds, 10, 0x8000_0000_0000_0000) {
            Some(v) => {
                if v == 0x8000_0000_0000_0000 {
                    Some(i64::MIN)
                } else {
                    Some(-(v as i64))
                }
            },
            None => None,
        }
    } else {
        match parse_unsigned(&cs, 10, 0x7fff_ffff_ffff_ffff) {
            Some(v) => Some(v as i64),
            None => None,
        }
    }
}

} // verus!
