//! Number parsing for EULUMDAT lines: each line holds exactly one value.

use vstd::prelude::*;
use crate::fixed::{MAX_FIXED, SCALE, abs_int};
use crate::io::eulumdat::err::Error;
use crate::numtext::{
    all_dec_digits, digits_val, find_dot, fixed_text_mag, fixed_text_val, frac_part,
    int_part, int_text_val, is_dec_digit, is_fixed_text, is_int_text,
    lemma_digits_val_nonneg, pow10, read_digits, unsigned_part,
};
use vstd::string::StrSliceExecFns;

verus! {

/// Attempts to parse an unsigned decimal integer and passes back an error
/// carrying the 1-based line number if unable.
pub fn parse_u32(iline: &usize, line: &str) -> (r: Result<u32, Error>)
    ensures
        match r {
            Ok(v) => {
                &&& is_int_text(line@)
                &&& (line@.len() == 0 || line@[0] != '-')
                &&& v == int_text_val(line@)
                &&& int_text_val(line@) <= u32::MAX
            },
            Err(e) => {
                &&& e == Error::ParseIntError(*iline)
                &&& !(is_int_text(line@) && (line@.len() == 0 || line@[0] != '-')
                    && int_text_val(line@) <= u32::MAX)
            },
        },
{
    let n = line.unicode_len();
    if n > 0 && line.get_char(0) == '-' {
        return Err(Error::ParseIntError(*iline));
    }
    let start: usize = if n > 0 && line.get_char(0) == '+' {
        1
    } else {
        0
    };
    proof {
        assert(unsigned_part(line@) =~= line@.subrange(start as int, n as int));
    }
    match read_digits(line, start, n, 0xffff_ffff) {
        Some(v) => Ok(v as u32),
        None => Err(Error::ParseIntError(*iline)),
    }
}

/// Attempts to parse a signed decimal integer and passes back an error
/// carrying the 1-based line number if unable.
pub fn parse_i32(iline: &usize, line: &str) -> (r: Result<i32, Error>)
    ensures
        match r {
            Ok(v) => {
                &&& is_int_text(line@)
                &&& v == int_text_val(line@)
                &&& i32::MIN <= int_text_val(line@) <= i32::MAX
            },
            Err(e) => {
                &&& e == Error::ParseIntError(*iline)
                &&& !(is_int_text(line@) && i32::MIN <= int_text_val(line@) <= i32::MAX)
            },
        },
{
    let n = line.unicode_len();
    let negative = n > 0 && line.get_char(0) == '-';
    let start: usize = if n > 0 && (line.get_char(0) == '+' || line.get_char(0) == '-') {
        1
    } else {
        0
    };
    proof {
        assert(unsigned_part(line@) =~= line@.subrange(start as int, n as int));
    }
    let cap: u64 = if negative {
        2_147_483_648
    } else {
        2_147_483_647
    };
    match read_digits(line, start, n, cap) {
        Some(v) => {
            if negative {
                Ok((-(v as i64)) as i32)
            } else {
                Ok(v as i32)
            }
        },
        None => Err(Error::ParseIntError(*iline)),
    }
}

/// Attempts to parse a decimal number, with an optional sign and fraction,
/// into a fixed-point value, and passes back an error carrying the 1-based
/// line number if unable or if the value is out of this crate's range.
#[verifier::rlimit(60)]
pub fn parse_fixed(iline: &usize, line: &str) -> (r: Result<i64, Error>)
    ensures
        match r {
            Ok(v) => {
                &&& is_fixed_text(line@)
                &&& abs_int(fixed_text_val(line@)) <= MAX_FIXED
                &&& v == fixed_text_val(line@)
            },
            Err(e) => {
                &&& e == Error::ParseFloatError(*iline)
                &&& !(is_fixed_text(line@) && abs_int(fixed_text_val(line@)) <= MAX_FIXED)
            },
        },
{
    let n = line.unicode_len();
    let negative = n > 0 && line.get_char(0) == '-';
    let start: usize = if n > 0 && (line.get_char(0) == '+' || line.get_char(0) == '-') {
        1
    } else {
        0
    };
    let ghost t = line@.subrange(start as int, n as int);
    proof {
        assert(unsigned_part(line@) =~= t);
    }

    // Find the first dot, if any.
    let mut dot: usize = start;
    while dot < n && line.get_char(dot) != '.'
        invariant
            start <= dot <= n,
            n == line@.len(),
            t == line@.subrange(start as int, n as int),
            find_dot(t, 0) == find_dot(t, dot - start),
            forall|k: int| 0 <= k < dot - start ==> t[k] != '.',
        decreases n - dot,
    {
        proof {
            assert(t[dot - start] == line@[dot as int]);
        }
        dot = dot + 1;
    }
    proof {
        if dot < n {
            assert(t[dot - start] == line@[dot as int]);
            assert(find_dot(t, dot - start) == dot - start);
        }
        assert(int_part(t) =~= line@.subrange(start as int, dot as int));
    }

    // Read the integer part; its value may not pass ten million.
    let ip: u64 = if dot == start {
        0
    } else {
        match read_digits(line, start, dot, 10_000_000) {
            Some(v) => v,
            None => {
                proof {
                    lemma_mag_over(t);
                }
                return Err(Error::ParseFloatError(*iline));
            },
        }
    };

    // Read up to nine fractional digits, and check the rest are digits.
    let mut f9: u64 = 0;
    let mut first9: usize = 0;
    if dot < n {
        let frac_len: usize = n - dot - 1;
        proof {
            assert(frac_part(t) =~= line@.subrange(dot + 1, n as int));
        }
        first9 = if frac_len >= 9 {
            9
        } else {
            frac_len
        };
        if first9 > 0 {
            match read_digits(line, dot + 1, dot + 1 + first9, 999_999_999) {
                Some(v) => {
                    proof {
                        assert(frac_part(t).take(first9 as int) =~= line@.subrange(
                            dot + 1,
                            dot + 1 + first9,
                        ));
                    }
                    f9 = v;
                },
                None => {
                    proof {
                        assert(frac_part(t).take(first9 as int) =~= line@.subrange(
                            dot + 1,
                            dot + 1 + first9,
                        ));
                        lemma_frac_prefix_invalid(t, first9 as int);
                    }
                    return Err(Error::ParseFloatError(*iline));
                },
            }
        }
        let mut rest: usize = dot + 1 + first9;
        while rest < n
            invariant
                dot + 1 + first9 <= rest <= n,
                n == line@.len(),
                t == line@.subrange(start as int, n as int),
                t == unsigned_part(line@),
                start <= dot < n,
                frac_part(t) =~= line@.subrange(dot + 1, n as int),
                forall|k: int| first9 <= k < rest - dot - 1 ==> is_dec_digit(
                    #[trigger] frac_part(t)[k],
                ),
            decreases n - rest,
        {
            let c = line.get_char(rest);
            if c < '0' || c > '9' {
                proof {
                    assert(frac_part(t)[rest - dot - 1] == line@[rest as int]);
                    assert(!all_dec_digits(frac_part(t)));
                }
                return Err(Error::ParseFloatError(*iline));
            }
            proof {
                assert(frac_part(t)[rest - dot - 1] == line@[rest as int]);
            }
            rest = rest + 1;
        }
    } else {
        proof {
            assert(frac_part(t) =~= Seq::<char>::empty());
        }
    }
    if dot == start && first9 == 0 {
        // No digit at all.
        return Err(Error::ParseFloatError(*iline));
    }

    // Scale a short fraction up to nine decimal places.
    let fscale: u64 = if first9 == 0 {
        1_000_000_000
    } else if first9 == 1 {
        100_000_000
    } else if first9 == 2 {
        10_000_000
    } else if first9 == 3 {
        1_000_000
    } else if first9 == 4 {
        100_000
    } else if first9 == 5 {
        10_000
    } else if first9 == 6 {
        1_000
    } else if first9 == 7 {
        100
    } else if first9 == 8 {
        10
    } else {
        1
    };
    proof {
        reveal_with_fuel(pow10, 11);
        assert(fscale == pow10(9 - first9));
        lemma_digits_val_nonneg(int_part(t));
        lemma_digits_val_nonneg(frac_part(t));
        lemma_frac9_nonneg(t);
        assert(ip * (SCALE as int) <= 10_000_000 * (SCALE as int)) by (nonlinear_arith)
            requires
                0 <= ip <= 10_000_000,
        ;
        if first9 < 9 {
            crate::numtext::lemma_digits_bounded(frac_part(t), first9 as int);
            assert(f9 * fscale < pow10(first9 as int) * pow10(9 - first9))
                by (nonlinear_arith)
            requires
                0 <= f9 < pow10(first9 as int),
                0 < fscale == pow10(9 - first9),
            ;
            lemma_pow10_split(first9 as int);
        }
    }
    let frac9: u64 = if first9 == 9 {
        f9
    } else {
        f9 * fscale
    };
    let mag: u64 = ip * (SCALE as u64) + frac9;
    if mag > (MAX_FIXED as u64) {
        return Err(Error::ParseFloatError(*iline));
    }
    if negative {
        Ok(-(mag as i64))
    } else {
        Ok(mag as i64)
    }
}

/// When the integer digits are unreadable or pass ten million, the text is
/// malformed or its magnitude passes the crate's range.
proof fn lemma_mag_over(t: Seq<char>)
    requires
        !(int_part(t).len() > 0 && all_dec_digits(int_part(t)) && digits_val(int_part(t))
            <= 10_000_000),
    ensures
        all_dec_digits(int_part(t)) && all_dec_digits(frac_part(t)) && int_part(t).len() > 0
            ==> fixed_text_mag(t) > MAX_FIXED,
{
    if all_dec_digits(int_part(t)) && all_dec_digits(frac_part(t)) && int_part(t).len() > 0 {
        lemma_digits_val_nonneg(int_part(t));
        lemma_digits_val_nonneg(frac_part(t));
        lemma_frac9_nonneg(t);
        assert(digits_val(int_part(t)) > 10_000_000);
        assert(digits_val(int_part(t)) * (SCALE as int) > 10_000_000 * (SCALE as int))
            by (nonlinear_arith)
            requires
                digits_val(int_part(t)) > 10_000_000,
        ;
    }
}

/// The magnitude of a number text is at least its scaled integer part.
proof fn lemma_frac9_nonneg(t: Seq<char>)
    requires
        all_dec_digits(frac_part(t)),
    ensures
        fixed_text_mag(t) >= digits_val(int_part(t)) * (SCALE as int),
{
    let frac = frac_part(t);
    lemma_digits_val_nonneg(frac);
    if frac.len() >= 9 {
        assert forall|k: int| 0 <= k < 9 implies is_dec_digit(
            #[trigger] frac.take(9)[k],
        ) by {
            assert(frac.take(9)[k] == frac[k]);
        }
        lemma_digits_val_nonneg(frac.take(9));
    } else {
        crate::numtext::lemma_pow10_at_least_one(9 - frac.len());
        assert(digits_val(frac) * pow10(9 - frac.len()) >= 0) by (nonlinear_arith)
            requires
                digits_val(frac) >= 0,
                pow10(9 - frac.len()) >= 0,
        ;
    }
}

/// Ten to the ninth splits as a product around any cut.
proof fn lemma_pow10_split(k: int)
    requires
        0 <= k <= 9,
    ensures
        pow10(k) * pow10(9 - k) == pow10(9),
    decreases k,
{
    if k == 0 {
        assert(pow10(0) == 1);
    } else {
        lemma_pow10_split(k - 1);
        assert(pow10(k) == 10 * pow10(k - 1));
        assert((10 * pow10(k - 1)) * pow10(9 - k) == 10 * (pow10(k - 1) * pow10(9 - k)))
            by (nonlinear_arith);
        assert(pow10(9 - (k - 1)) == 10 * pow10(9 - k));
        assert(pow10(k - 1) * (10 * pow10(9 - k)) == 10 * (pow10(k - 1) * pow10(9 - k)))
            by (nonlinear_arith);
    }
}

/// When a nine-digit fraction prefix is unreadable, the fraction holds a
/// non-digit.
proof fn lemma_frac_prefix_invalid(t: Seq<char>, first9: int)
    requires
        0 < first9 <= frac_part(t).len(),
        first9 <= 9,
        !(all_dec_digits(frac_part(t).take(first9)) && digits_val(frac_part(t).take(first9))
            <= 999_999_999),
    ensures
        !all_dec_digits(frac_part(t)),
{
    let frac = frac_part(t);
    if all_dec_digits(frac) {
        assert forall|k: int| 0 <= k < first9 implies is_dec_digit(
            #[trigger] frac.take(first9)[k],
        ) by {
            assert(frac.take(first9)[k] == frac[k]);
        }
        crate::numtext::lemma_digits_bounded(frac.take(first9), 9);
        proof_pow10_nine();
    }
}

/// The value of ten to the ninth.
proof fn proof_pow10_nine()
    ensures
        pow10(9) == 1_000_000_000,
{
    reveal_with_fuel(pow10, 11);
}

} // verus!
