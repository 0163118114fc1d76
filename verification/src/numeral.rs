//! Unsigned decimal numerals: parsing a token into a `u64` exactly as the
//! standard integer parser would, and rendering a `u64` back into digits.

use vstd::prelude::*;
use crate::NumberError;
use crate::text::{is_digit_char, lower_char, lower_seq};

verus! {

pub open spec fn digit_val(c: char) -> int {
    c as int - '0' as int
}

/// The digit character for a value below ten.
pub open spec fn digit_char(d: int) -> char {
    ('0' as int + d) as char
}

/// Left-to-right digit accumulation, reporting the first failure: a
/// non-digit character, or a value that no longer fits in 64 bits.
pub open spec fn spec_parse_digits(s: Seq<char>, acc: u64) -> Result<u64, NumberError>
    decreases s.len(),
{
    if s.len() == 0 {
        Ok(acc)
    } else if !is_digit_char(s[0]) {
        Err(NumberError::InvalidDigit)
    } else if acc * 10 + digit_val(s[0]) > u64::MAX {
        Err(NumberError::Overflow)
    } else {
        spec_parse_digits(s.drop_first(), (acc * 10 + digit_val(s[0])) as u64)
    }
}

/// What parsing a token as an unsigned 64-bit integer yields: an optional
/// leading `+`, then one or more decimal digits and nothing else.
pub open spec fn spec_parse_u64(s: Seq<char>) -> Result<u64, NumberError> {
    if s.len() == 0 {
        Err(NumberError::Empty)
    } else {
        let t = if s[0] == '+' {
            s.drop_first()
        } else {
            s
        };
        if t.len() == 0 {
            Err(NumberError::InvalidDigit)
        } else {
            spec_parse_digits(t, 0)
        }
    }
}

/// The decimal numeral of `n`, most significant digit first, no sign and
/// no leading zeros.
pub open spec fn spec_dec(n: nat) -> Seq<char>
    decreases n,
{
    if n < 10 {
        seq![digit_char(n as int)]
    } else {
        spec_dec(n / 10).push(digit_char((n % 10) as int))
    }
}

pub fn parse_u64(v: &Vec<char>) -> (r: Result<u64, NumberError>)
    ensures
        r == spec_parse_u64(v@),
{
    if v.len() == 0 {
        return Err(NumberError::Empty);
    }
    let start: usize = if v[0] == '+' {
        1
    } else {
        0
    };
    if v.len() == start {
        return Err(NumberError::InvalidDigit);
    }
    let ghost t = if v@[0] == '+' {
        v@.drop_first()
    } else {
        v@
    };
    proof {
        assert(t.subrange(0, t.len() as int) =~= t);
    }
    let mut acc: u64 = 0;
    let mut i: usize = start;
    while i < v.len()
        invariant
            start <= i <= v@.len(),
            start == (if v@[0] == '+' {
                1int
            } else {
                0int
            }),
            v@.len() > start,
            t == (if v@[0] == '+' {
                v@.drop_first()
            } else {
                v@
            }),
            spec_parse_u64(v@) == spec_parse_digits(t.subrange(i - start, t.len() as int), acc),
        decreases v@.len() - i,
    {
        let ghost u = t.subrange(i - start, t.len() as int);
        proof {
            assert(u[0] == v@[i as int]);
        }
        let c = v[i];
        if !('0' <= c && c <= '9') {
            return Err(NumberError::InvalidDigit);
        }
        let w = (acc as u128) * 10 + ((c as u32 - 48) as u128);
        proof {
            assert(digit_val(c) == (c as u32 - 48) as int);
            assert(w == acc * 10 + digit_val(c));
        }
        if w > u64::MAX as u128 {
            return Err(NumberError::Overflow);
        }
        acc = w as u64;
        i += 1;
        proof {
            assert(u.drop_first() =~= t.subrange(i - start, t.len() as int));
        }
    }
    proof {
        assert(t.subrange(i - start, t.len() as int) =~= Seq::<char>::empty());
    }
    Ok(acc)
}

pub open spec fn pow10(k: nat) -> nat
    decreases k,
{
    if k == 0 {
        1
    } else {
        10 * pow10((k - 1) as nat)
    }
}

/// Every character of a rendered numeral is a decimal digit.
pub proof fn lemma_dec_digits(n: nat)
    ensures
        spec_dec(n).len() >= 1,
        forall|i: int|
            0 <= i < spec_dec(n).len() ==> is_digit_char(#[trigger] spec_dec(n)[i]),
    decreases n,
{
    if n < 10 {
        assert(is_digit_char(digit_char(n as int)));
    } else {
        lemma_dec_digits(n / 10);
        assert(is_digit_char(digit_char((n % 10) as int)));
        assert(forall|i: int|
            0 <= i < spec_dec(n).len() - 1 ==> #[trigger] spec_dec(n)[i] == spec_dec(n / 10)[i]);
    }
}

proof fn lemma_parse_digits_append(a: Seq<char>, b: Seq<char>, acc: u64)
    ensures
        spec_parse_digits(a + b, acc) == (match spec_parse_digits(a, acc) {
            Ok(m) => spec_parse_digits(b, m),
            Err(e) => Err(e),
        }),
    decreases a.len(),
{
    if a.len() == 0 {
        assert(a + b =~= b);
    } else {
        assert((a + b)[0] == a[0]);
        assert((a + b).len() > 0);
        if is_digit_char(a[0]) && acc * 10 + digit_val(a[0]) <= u64::MAX {
            let acc2 = (acc * 10 + digit_val(a[0])) as u64;
            assert((a + b).drop_first() =~= a.drop_first() + b);
            lemma_parse_digits_append(a.drop_first(), b, acc2);
        }
    }
}

proof fn lemma_parse_dec_general(n: u64, acc: u64)
    requires
        acc * pow10(spec_dec(n as nat).len() as nat) + n <= u64::MAX,
    ensures
        spec_parse_digits(spec_dec(n as nat), acc) == Ok::<u64, NumberError>(
            (acc * pow10(spec_dec(n as nat).len() as nat) + n) as u64,
        ),
    decreases n,
{
    let s = spec_dec(n as nat);
    if n < 10 {
        assert(s == seq![digit_char(n as int)]);
        assert(s.len() == 1);
        assert(pow10(0) == 1);
        assert(pow10(1) == 10);
        assert(is_digit_char(s[0]));
        assert(digit_val(s[0]) == n as int);
        assert(acc * 10 + n <= u64::MAX);
        let acc2 = (acc * 10 + n) as u64;
        assert(s.drop_first() =~= Seq::<char>::empty());
        assert(spec_parse_digits(s.drop_first(), acc2) == Ok::<u64, NumberError>(acc2));
    } else {
        let q = n / 10;
        let d = n % 10;
        let t = spec_dec(q as nat);
        let ll = t.len() as nat;
        assert(s == t.push(digit_char(d as int)));
        assert(s.len() == ll + 1);
        assert(pow10(ll + 1) == 10 * pow10(ll));
        assert(s =~= t + seq![digit_char(d as int)]);
        assert(n == q * 10 + d) by (nonlinear_arith)
            requires q == n / 10 && d == n % 10 && n >= 10;
        // the recursive obligation fits because ten times it still fits
        assert(acc * pow10(ll) * 10 + q * 10 + d == acc * pow10(ll + 1) + n) by (nonlinear_arith)
            requires pow10(ll + 1) == 10 * pow10(ll) && n == q * 10 + d;
        assert(acc * pow10(ll) + q <= u64::MAX) by (nonlinear_arith)
            requires
                acc * pow10(ll) * 10 + q * 10 + d <= u64::MAX,
                acc >= 0 && q >= 0 && d >= 0 && pow10(ll) >= 0;
        lemma_parse_dec_general(q, acc);
        let m = (acc * pow10(ll) + q) as u64;
        lemma_parse_digits_append(t, seq![digit_char(d as int)], acc);
        lemma_dec_digits(q as nat);
        let e = seq![digit_char(d as int)];
        assert(is_digit_char(e[0]));
        assert(digit_val(e[0]) == d as int);
        assert(m * 10 + d <= u64::MAX);
        let acc2 = (m * 10 + d) as u64;
        assert(e.drop_first() =~= Seq::<char>::empty());
        assert(spec_parse_digits(e.drop_first(), acc2) == Ok::<u64, NumberError>(acc2));
        assert(spec_parse_digits(e, m) == Ok::<u64, NumberError>(acc2));
        assert(acc2 == acc * pow10(s.len() as nat) + n);
    }
}

/// Parsing the decimal numeral of `n` recovers exactly `n`.
pub proof fn lemma_parse_dec(n: u64)
    ensures
        spec_parse_u64(spec_dec(n as nat)) == Ok::<u64, NumberError>(n),
{
    let s = spec_dec(n as nat);
    lemma_dec_digits(n as nat);
    assert(s[0] != '+');
    assert(pow10(s.len() as nat) >= 0);
    assert(0 * pow10(s.len() as nat) + n == n);
    lemma_parse_dec_general(n, 0);
}

proof fn lemma_parse_digits_lower(s: Seq<char>, acc: u64)
    ensures
        spec_parse_digits(lower_seq(s), acc) == spec_parse_digits(s, acc),
    decreases s.len(),
{
    if s.len() > 0 {
        assert(lower_seq(s)[0] == lower_char(s[0]));
        assert(is_digit_char(lower_char(s[0])) == is_digit_char(s[0]));
        if is_digit_char(s[0]) {
            assert(lower_char(s[0]) == s[0]);
            assert(lower_seq(s).drop_first() =~= lower_seq(s.drop_first()));
            if acc * 10 + digit_val(s[0]) <= u64::MAX {
                lemma_parse_digits_lower(s.drop_first(), (acc * 10 + digit_val(s[0])) as u64);
            }
        }
    } else {
        assert(lower_seq(s) =~= Seq::<char>::empty());
    }
}

/// Lower-casing a token does not change how it parses as a number:
/// digits have no case, and any letter stays a letter.
pub proof fn lemma_parse_u64_lower(s: Seq<char>)
    ensures
        spec_parse_u64(lower_seq(s)) == spec_parse_u64(s),
{
    if s.len() > 0 {
        assert(lower_seq(s)[0] == lower_char(s[0]));
        assert(lower_char('+') == '+');
        assert((lower_seq(s)[0] == '+') == (s[0] == '+'));
        if s[0] == '+' {
            assert(lower_seq(s).drop_first() =~= lower_seq(s.drop_first()));
            if s.drop_first().len() > 0 {
                lemma_parse_digits_lower(s.drop_first(), 0);
            }
        } else {
            lemma_parse_digits_lower(s, 0);
        }
    } else {
        assert(lower_seq(s) =~= Seq::<char>::empty());
    }
}

} // verus!
