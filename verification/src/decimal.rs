//! Decimal text of a single-precision value with one digit after the point,
//! as Rust's `{:.1}` writes it: the exact binary value is rounded to the
//! nearest tenth, ties to the even digit; the sign of a negative value (and
//! of `-0.0`) is kept; NaN is written `NaN` and infinities `inf` / `-inf`.

use vstd::arithmetic::power2::{
    lemma2_to64, lemma_pow2_adds, lemma_pow2_pos, lemma_pow2_strictly_increases,
    lemma_pow2_unfold, pow2,
};
use vstd::prelude::*;

use crate::types::{
    exponent_field, fraction_field, is_infinite_bits, is_nan_bits, magnitude_bits, sign_set,
};

verus! {

/// The character of a decimal digit.
pub open spec fn digit_char(d: nat) -> char {
    if d == 0 {
        '0'
    } else if d == 1 {
        '1'
    } else if d == 2 {
        '2'
    } else if d == 3 {
        '3'
    } else if d == 4 {
        '4'
    } else if d == 5 {
        '5'
    } else if d == 6 {
        '6'
    } else if d == 7 {
        '7'
    } else if d == 8 {
        '8'
    } else {
        '9'
    }
}

/// The decimal digits of `n`, most significant first, without leading zeros.
pub open spec fn decimal_text(n: nat) -> Seq<char>
    decreases n,
{
    if n < 10 {
        seq![digit_char(n)]
    } else {
        decimal_text(n / 10).push(digit_char(n % 10))
    }
}

/// `n / d` rounded to the nearest integer, ties to the even one.
pub open spec fn rounded_half_even(n: nat, d: nat) -> nat
    recommends
        d > 0,
{
    let q = n / d;
    let r = n % d;
    if 2 * r > d || (2 * r == d && q % 2 == 1) {
        q + 1
    } else {
        q
    }
}

/// The significand of a finite value: the value is `significand * 2^(scale - 150)`.
pub open spec fn significand(bits: u32) -> nat {
    if exponent_field(bits) == 0 {
        fraction_field(bits)
    } else {
        fraction_field(bits) + 0x80_0000
    }
}

/// The exponent field with subnormals read as exponent 1.
pub open spec fn scale(bits: u32) -> nat {
    if exponent_field(bits) == 0 {
        1
    } else {
        exponent_field(bits)
    }
}

/// Ten times the magnitude of a finite value, rounded to an integer, ties to even.
pub open spec fn tenths(bits: u32) -> nat {
    let e = scale(bits);
    if e >= 150 {
        significand(bits) * pow2((e - 150) as nat) * 10
    } else {
        rounded_half_even(significand(bits) * 10, pow2((150 - e) as nat))
    }
}

/// The text that `{:.1}` gives of the value with these bits.
pub open spec fn one_decimal_text(bits: u32) -> Seq<char> {
    if is_nan_bits(bits) {
        seq!['N', 'a', 'N']
    } else {
        let sign: Seq<char> = if sign_set(bits) {
            seq!['-']
        } else {
            seq![]
        };
        if is_infinite_bits(bits) {
            sign + seq!['i', 'n', 'f']
        } else {
            sign + decimal_text(tenths(bits) / 10) + seq!['.', digit_char(tenths(bits) % 10)]
        }
    }
}

/// The one-character text of a digit.
fn digit_str(d: u8) -> (r: &'static str)
    requires
        d < 10,
    ensures
        r@ == seq![digit_char(d as nat)],
{
    match d {
        0 => {
            proof {
                reveal_strlit("0");
            }
            "0"
        },
        1 => {
            proof {
                reveal_strlit("1");
            }
            "1"
        },
        2 => {
            proof {
                reveal_strlit("2");
            }
            "2"
        },
        3 => {
            proof {
                reveal_strlit("3");
            }
            "3"
        },
        4 => {
            proof {
                reveal_strlit("4");
            }
            "4"
        },
        5 => {
            proof {
                reveal_strlit("5");
            }
            "5"
        },
        6 => {
            proof {
                reveal_strlit("6");
            }
            "6"
        },
        7 => {
            proof {
                reveal_strlit("7");
            }
            "7"
        },
        8 => {
            proof {
                reveal_strlit("8");
            }
            "8"
        },
        _ => {
            proof {
                reveal_strlit("9");
            }
            "9"
        },
    }
}

/// Appends the decimal digits of `n` to `out`.
pub fn push_decimal(out: &mut String, n: u128)
    ensures
        final(out)@ == old(out)@ + decimal_text(n as nat),
    decreases n,
{
    if n >= 10 {
        push_decimal(out, n / 10);
    }
    out.append(digit_str((n % 10) as u8));
    assert(out@ =~= old(out)@ + decimal_text(n as nat));
}

/// `pow2(64)` and the ones below it that the bounds need.
proof fn lemma_pow2_facts()
    ensures
        pow2(24) == 0x100_0000,
        pow2(64) == 0x1_0000_0000_0000_0000,
        pow2(128) == 0x1_0000_0000_0000_0000 * 0x1_0000_0000_0000_0000,
{
    lemma2_to64();
    lemma_pow2_adds(64, 64);
}

/// A scaled significand stays below `2^128` for every exponent a finite value can have.
proof fn lemma_shift_bound(sig: nat, i: nat)
    requires
        sig < 0x100_0000,
        i <= 104,
    ensures
        sig * pow2(i) < 0x1_0000_0000_0000_0000 * 0x1_0000_0000_0000_0000,
{
    lemma_pow2_facts();
    lemma_pow2_adds(24, i);
    if 24 + i < 128 {
        lemma_pow2_strictly_increases(24 + i, 128);
    }
    lemma_pow2_pos(i);
    assert(sig * pow2(i) <= 0xff_ffff * pow2(i)) by (nonlinear_arith)
        requires
            sig < 0x100_0000,
            pow2(i) > 0,
    ;
}

/// When the divisor exceeds twice the numerator the rounded quotient is zero.
proof fn lemma_small_rounds_to_zero(n: nat, d: nat)
    requires
        2 * n < d,
    ensures
        rounded_half_even(n, d) == 0,
{
    assert(n / d == 0) by (nonlinear_arith)
        requires
            n < d,
    ;
    assert(n % d == n) by (nonlinear_arith)
        requires
            n < d,
    ;
}

/// Writes the value with bits `bits` with one digit after the decimal point.
pub fn one_decimal(bits: u32) -> (r: String)
    ensures
        r@ == one_decimal_text(bits),
{
    let mag = bits % 0x8000_0000;
    if mag > 0x7f80_0000 {
        proof {
            reveal_strlit("NaN");
        }
        return "NaN".to_string();
    }
    let mut out = String::new();
    let ghost sign: Seq<char> = if sign_set(bits) {
        seq!['-']
    } else {
        seq![]
    };
    if bits >= 0x8000_0000 {
        proof {
            reveal_strlit("-");
        }
        out.append("-");
    }
    assert(out@ =~= sign);
    if mag == 0x7f80_0000 {
        proof {
            reveal_strlit("inf");
        }
        out.append("inf");
        return out;
    }
    let expf = mag / 0x80_0000;
    let frac = mag % 0x80_0000;
    assert(expf == exponent_field(bits) && frac == fraction_field(bits));
    let sig: u128 = if expf == 0 {
        frac as u128
    } else {
        (frac + 0x80_0000) as u128
    };
    let e: u32 = if expf == 0 {
        1
    } else {
        expf
    };
    assert(sig == significand(bits) && e == scale(bits));
    assert(sig < 0x100_0000);
    assert(e <= 254);
    let int_part: u128;
    let last: u8;
    if e >= 150 {
        let shift = e - 150;
        let mut v: u128 = sig;
        let mut i: u32 = 0;
        proof {
            lemma2_to64();
        }
        while i < shift
            invariant
                i <= shift,
                shift <= 104,
                sig < 0x100_0000,
                v == sig * pow2(i as nat),
            decreases shift - i,
        {
            proof {
                lemma_shift_bound(sig as nat, (i + 1) as nat);
                lemma_pow2_unfold((i + 1) as nat);
                assert(sig * pow2((i + 1) as nat) == 2 * (sig * pow2(i as nat))) by (nonlinear_arith)
                    requires
                        pow2((i + 1) as nat) == 2 * pow2(i as nat),
                ;
            }
            v = v * 2;
            i = i + 1;
        }
        int_part = v;
        last = 0;
        proof {
            let t = sig * pow2(shift as nat) * 10;
            assert(t == tenths(bits));
            assert(t / 10 == v);
            assert(t % 10 == 0);
        }
    } else {
        let k = 150 - e;
        let num: u128 = sig * 10;
        let t: u128;
        if k > 64 {
            proof {
                lemma_pow2_facts();
                lemma_pow2_strictly_increases(64, k as nat);
                lemma_small_rounds_to_zero(num as nat, pow2(k as nat));
            }
            t = 0;
        } else {
            let mut den: u128 = 1;
            let mut i: u32 = 0;
            proof {
                lemma2_to64();
            }
            while i < k
                invariant
                    i <= k,
                    k <= 64,
                    den == pow2(i as nat),
                decreases k - i,
            {
                proof {
                    lemma_pow2_unfold((i + 1) as nat);
                    lemma_pow2_facts();
                    if i + 1 < 64 {
                        lemma_pow2_strictly_increases((i + 1) as nat, 64);
                    }
                }
                den = den * 2;
                i = i + 1;
            }
            proof {
                lemma_pow2_pos(k as nat);
                lemma_pow2_facts();
                if k < 64 {
                    lemma_pow2_strictly_increases(k as nat, 64);
                }
            }
            let q = num / den;
            let r = num % den;
            t = if 2 * r > den || (2 * r == den && q % 2 == 1) {
                q + 1
            } else {
                q
            };
        }
        assert(t == tenths(bits));
        int_part = t / 10;
        last = (t % 10) as u8;
    }
    let ghost before = out@;
    push_decimal(&mut out, int_part);
    proof {
        reveal_strlit(".");
    }
    out.append(".");
    out.append(digit_str(last));
    assert(out@ =~= one_decimal_text(bits));
    out
}

} // verus!
