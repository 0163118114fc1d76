//! The human-readable formatter: renders a base-unit magnitude scaled by a
//! unit's factor as `"<value> <name>"`, trimming the plural name to its
//! singular form when the value is exactly one.
//!
//! The value is the exact ratio `base / scale`. When the scale does not
//! divide the magnitude, the fractional part is written digit by digit to
//! at most thirty places, enough for every terminating ratio the built-in
//! unit families can produce.

use vstd::prelude::*;
use vstd::string::StrSliceExecFns;
use vstd::string::StringExecFns;
use crate::numeral::{digit_char, spec_dec};
use crate::text::is_lower_word;

verus! {

/// How many fractional digits the formatter will write at most.
pub open spec fn frac_digit_limit() -> nat {
    30
}

/// The digits of the fraction `r / scale` (with `r < scale`), produced by
/// long division until the remainder vanishes or the limit is reached.
pub open spec fn spec_frac_digits(r: nat, scale: nat, fuel: nat) -> Seq<char>
    decreases fuel,
{
    if fuel == 0 || r == 0 || scale == 0 {
        Seq::<char>::empty()
    } else {
        seq![digit_char(((r * 10) / scale) as int)] + spec_frac_digits(
            (r * 10) % scale,
            scale,
            (fuel - 1) as nat,
        )
    }
}

/// The rendered form of a quantity of `base` base units in a unit of the
/// given scale factor and plural name.
pub open spec fn spec_render(base: u64, scale: u64, name: Seq<char>) -> Seq<char> {
    let q = base as nat / scale as nat;
    let r = base as nat % scale as nat;
    let number = if r == 0 {
        spec_dec(q)
    } else {
        spec_dec(q) + seq!['.'] + spec_frac_digits(r, scale as nat, frac_digit_limit())
    };
    let label = if base == scale {
        name.drop_last()
    } else {
        name
    };
    number + seq![' '] + label
}

/// Appends a single digit character.
fn push_digit(out: &mut String, d: u64)
    requires
        d < 10,
    ensures
        final(out)@ == old(out)@ + seq![digit_char(d as int)],
{
    match d {
        0 => {
            out.append("0");
            proof {
                reveal_strlit("0");
                assert(old(out)@ + "0"@ =~= old(out)@ + seq![digit_char(0)]);
            }
        },
        1 => {
            out.append("1");
            proof {
                reveal_strlit("1");
                assert(old(out)@ + "1"@ =~= old(out)@ + seq![digit_char(1)]);
            }
        },
        2 => {
            out.append("2");
            proof {
                reveal_strlit("2");
                assert(old(out)@ + "2"@ =~= old(out)@ + seq![digit_char(2)]);
            }
        },
        3 => {
            out.append("3");
            proof {
                reveal_strlit("3");
                assert(old(out)@ + "3"@ =~= old(out)@ + seq![digit_char(3)]);
            }
        },
        4 => {
            out.append("4");
            proof {
                reveal_strlit("4");
                assert(old(out)@ + "4"@ =~= old(out)@ + seq![digit_char(4)]);
            }
        },
        5 => {
            out.append("5");
            proof {
                reveal_strlit("5");
                assert(old(out)@ + "5"@ =~= old(out)@ + seq![digit_char(5)]);
            }
        },
        6 => {
            out.append("6");
            proof {
                reveal_strlit("6");
                assert(old(out)@ + "6"@ =~= old(out)@ + seq![digit_char(6)]);
            }
        },
        7 => {
            out.append("7");
            proof {
                reveal_strlit("7");
                assert(old(out)@ + "7"@ =~= old(out)@ + seq![digit_char(7)]);
            }
        },
        8 => {
            out.append("8");
            proof {
                reveal_strlit("8");
                assert(old(out)@ + "8"@ =~= old(out)@ + seq![digit_char(8)]);
            }
        },
        _ => {
            out.append("9");
            proof {
                reveal_strlit("9");
                assert(old(out)@ + "9"@ =~= old(out)@ + seq![digit_char(9)]);
            }
        },
    }
}

/// Appends the decimal numeral of `n`.
fn push_dec(out: &mut String, n: u64)
    ensures
        final(out)@ == old(out)@ + spec_dec(n as nat),
    decreases n,
{
    if n >= 10 {
        push_dec(out, n / 10);
        push_digit(out, n % 10);
        assert(old(out)@ + spec_dec((n / 10) as nat) + seq![digit_char((n % 10) as int)] =~= old(
            out,
        )@ + spec_dec(n as nat));
    } else {
        push_digit(out, n);
    }
}

/// Appends the fractional digits of `r / scale`.
fn push_frac(out: &mut String, r: u64, scale: u64, fuel: u8)
    requires
        1 <= scale,
        r < scale,
    ensures
        final(out)@ == old(out)@ + spec_frac_digits(r as nat, scale as nat, fuel as nat),
    decreases fuel,
{
    if fuel > 0 && r > 0 {
        let wide = (r as u128) * 10;
        let d = (wide / (scale as u128)) as u64;
        let r2 = (wide % (scale as u128)) as u64;
        proof {
            assert(wide == r * 10);
            assert(wide / (scale as u128) == (r as nat * 10) / (scale as nat)) by (nonlinear_arith)
                requires wide == r * 10 && scale >= 1;
            assert((r as nat * 10) / (scale as nat) < 10) by (nonlinear_arith)
                requires r < scale && scale >= 1;
            assert(wide % (scale as u128) == (r as nat * 10) % (scale as nat)) by (nonlinear_arith)
                requires wide == r * 10 && scale >= 1;
            assert((r as nat * 10) % (scale as nat) < scale as nat) by (nonlinear_arith)
                requires scale >= 1;
        }
        push_digit(out, d);
        push_frac(out, r2, scale, fuel - 1);
        assert(old(out)@ + seq![digit_char(d as int)] + spec_frac_digits(
            r2 as nat,
            scale as nat,
            (fuel - 1) as nat,
        ) =~= old(out)@ + spec_frac_digits(r as nat, scale as nat, fuel as nat));
    } else {
        assert(old(out)@ + spec_frac_digits(r as nat, scale as nat, fuel as nat) =~= old(out)@);
    }
}

/// Renders `base` base units in a unit of the given scale and plural name.
pub fn render_quantity(base: u64, scale: u64, name: &str) -> (out: String)
    requires
        1 <= scale,
        name@.len() >= 2,
        is_lower_word(name@),
    ensures
        out@ == spec_render(base, scale, name@),
{
    let q = base / scale;
    let r = base % scale;
    let mut out = String::new();
    push_dec(&mut out, q);
    if r != 0 {
        out.append(".");
        proof {
            reveal_strlit(".");
            assert("."@ =~= seq!['.']);
        }
        push_frac(&mut out, r, scale, 30);
    }
    out.append(" ");
    proof {
        reveal_strlit(" ");
        assert(" "@ =~= seq![' ']);
    }
    proof {
        assert(vstd::string::is_ascii(name)) by {
            assert(forall|i: int|
                0 <= i < name@.len() ==> '\0' <= #[trigger] name@[i] <= '\u{7f}');
        }
    }
    if base == scale {
        let trimmed = name.substring_ascii(0, name.unicode_len() - 1);
        out.append(trimmed);
        proof {
            assert(name@.subrange(0, name@.len() - 1) =~= name@.drop_last());
        }
    } else {
        out.append(name);
    }
    proof {
        assert(out@ =~= spec_render(base, scale, name@));
    }
    out
}

} // verus!
