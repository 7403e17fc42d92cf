//! Verified reading of decimal numbers from text: unsigned and signed
//! integers, and fixed-point values with an optional fractional part.

use vstd::prelude::*;
use crate::fixed::SCALE;
use vstd::string::StrSliceExecFns;

verus! {

/// Whether a character is a decimal digit.
pub open spec fn is_dec_digit(c: char) -> bool {
    '0' <= c && c <= '9'
}

/// Whether every character of a sequence is a decimal digit.
pub open spec fn all_dec_digits(s: Seq<char>) -> bool {
    forall|i: int| 0 <= i < s.len() ==> is_dec_digit(#[trigger] s[i])
}

/// The value of a sequence of decimal digits, most significant first.
pub open spec fn digits_val(s: Seq<char>) -> int
    decreases s.len(),
{
    if s.len() == 0 {
        0
    } else {
        digits_val(s.drop_last()) * 10 + (s.last() as int - '0' as int)
    }
}

/// The digit sequence of a number, with an optional leading sign stripped.
pub open spec fn unsigned_part(s: Seq<char>) -> Seq<char> {
    if s.len() > 0 && (s[0] == '+' || s[0] == '-') {
        s.skip(1)
    } else {
        s
    }
}

/// Whether a sequence reads as a decimal integer with an optional sign.
pub open spec fn is_int_text(s: Seq<char>) -> bool {
    &&& unsigned_part(s).len() > 0
    &&& all_dec_digits(unsigned_part(s))
}

/// The signed value a decimal integer text stands for.
pub open spec fn int_text_val(s: Seq<char>) -> int {
    if s.len() > 0 && s[0] == '-' {
        -digits_val(unsigned_part(s))
    } else {
        digits_val(unsigned_part(s))
    }
}

/// Extending a digit string multiplies its value by ten and adds the digit,
/// so digit values never shrink along prefixes.
proof fn lemma_digits_prefix_step(s: Seq<char>, k: int)
    requires
        0 <= k < s.len(),
        all_dec_digits(s),
    ensures
        digits_val(s.take(k + 1)) == digits_val(s.take(k)) * 10 + (s[k] as int - '0' as int),
        digits_val(s.take(k + 1)) >= digits_val(s.take(k)) >= 0,
    decreases k,
{
    assert(s.take(k + 1).drop_last() =~= s.take(k));
    assert(s.take(k + 1).last() == s[k]);
    if k > 0 {
        lemma_digits_prefix_step(s, k - 1);
    } else {
        assert(s.take(0) =~= Seq::<char>::empty());
    }
    assert(digits_val(s.take(k)) * 10 >= digits_val(s.take(k))) by (nonlinear_arith)
        requires
            digits_val(s.take(k)) >= 0,
    ;
}

/// A digit string's value only grows as more digits are read.
proof fn lemma_digits_prefix_mono(s: Seq<char>, k: int)
    requires
        0 <= k <= s.len(),
        all_dec_digits(s),
    ensures
        digits_val(s.take(k)) <= digits_val(s),
        digits_val(s.take(k)) >= 0,
    decreases s.len() - k,
{
    if k == s.len() {
        assert(s.take(k) =~= s);
        if k > 0 {
            lemma_digits_prefix_step(s, k - 1);
        } else {
            assert(s.take(0) =~= Seq::<char>::empty());
        }
    } else {
        lemma_digits_prefix_step(s, k);
        lemma_digits_prefix_mono(s, k + 1);
    }
}

/// Reads an unsigned digit string `s[from..to]` into a value, refusing a
/// value above `cap`.  Returns `None` when a non-digit appears in the range
/// or the value would pass the cap.
pub fn read_digits(s: &str, from: usize, to: usize, cap: u64) -> (r: Option<u64>)
    requires
        from <= to <= s@.len(),
        s@.len() <= usize::MAX,
        cap <= 1_000_000_000_000_000_000,
    ensures
        match r {
            Some(v) => {
                &&& all_dec_digits(s@.subrange(from as int, to as int))
                &&& v == digits_val(s@.subrange(from as int, to as int))
                &&& v <= cap
                &&& to > from
            },
            None => !(to > from && all_dec_digits(s@.subrange(from as int, to as int))
                && digits_val(s@.subrange(from as int, to as int)) <= cap),
        },
{
    let ghost body = s@.subrange(from as int, to as int);
    if to == from {
        return None;
    }
    let mut acc: u64 = 0;
    let mut i: usize = from;
    while i < to
        invariant
            from <= i <= to <= s@.len(),
            body == s@.subrange(from as int, to as int),
            to > from,
            cap <= 1_000_000_000_000_000_000,
            all_dec_digits(body.take(i - from)),
            acc == digits_val(body.take(i - from)),
            acc <= cap,
        decreases to - i,
    {
        let c = s.get_char(i);
        if c < '0' || c > '9' {
            proof {
                assert(body[i - from] == s@[i as int]);
                assert(!is_dec_digit(body[i - from]));
            }
            return None;
        }
        let d: u64 = (c as u32 as u64) - ('0' as u32 as u64);
        proof {
            assert(body[i - from] == s@[i as int]);
            assert(body.take(i - from + 1).drop_last() =~= body.take(i - from));
            assert(body.take(i - from + 1).last() == body[i - from]);
        }
        let next: u64 = acc * 10 + d;
        if next > cap {
            proof {
                if all_dec_digits(body) {
                    lemma_digits_prefix_mono(body, i - from + 1);
                }
            }
            return None;
        }
        acc = next;
        i = i + 1;
    }
    proof {
        assert(body.take(to - from) =~= body);
    }
    Some(acc)
}

/// The position of the first `.` in a sequence, or its length if none.
pub open spec fn find_dot(t: Seq<char>, i: int) -> int
    decreases t.len() - i,
{
    if i < 0 || i >= t.len() {
        t.len() as int
    } else if t[i] == '.' {
        i
    } else {
        find_dot(t, i + 1)
    }
}

/// Ten to a small power.
pub open spec fn pow10(e: int) -> int
    decreases e,
{
    if e <= 0 {
        1
    } else {
        10 * pow10(e - 1)
    }
}

/// The fractional digits of a number text: what follows the first dot.
pub open spec fn frac_part(t: Seq<char>) -> Seq<char> {
    if find_dot(t, 0) == t.len() {
        Seq::empty()
    } else {
        t.skip(find_dot(t, 0) + 1)
    }
}

/// The integer digits of a number text: what precedes the first dot.
pub open spec fn int_part(t: Seq<char>) -> Seq<char> {
    t.take(find_dot(t, 0))
}

/// Whether a sequence reads as a decimal number: an optional sign, then
/// digits with at most one dot among them, and at least one digit in all.
pub open spec fn is_fixed_text(s: Seq<char>) -> bool {
    let t = unsigned_part(s);
    &&& all_dec_digits(int_part(t))
    &&& all_dec_digits(frac_part(t))
    &&& int_part(t).len() + frac_part(t).len() > 0
}

/// The magnitude of a number text in fixed-point units: the integer part
/// scaled up, plus the first nine fractional digits.
pub open spec fn fixed_text_mag(t: Seq<char>) -> int {
    let frac = frac_part(t);
    let frac9 = if frac.len() >= 9 {
        digits_val(frac.take(9))
    } else {
        digits_val(frac) * pow10(9 - frac.len())
    };
    digits_val(int_part(t)) * (SCALE as int) + frac9
}

/// The signed fixed-point value a number text stands for.
pub open spec fn fixed_text_val(s: Seq<char>) -> int {
    if s.len() > 0 && s[0] == '-' {
        -fixed_text_mag(unsigned_part(s))
    } else {
        fixed_text_mag(unsigned_part(s))
    }
}

/// A string of decimal digits has a non-negative value.
pub proof fn lemma_digits_val_nonneg(s: Seq<char>)
    requires
        all_dec_digits(s),
    ensures
        digits_val(s) >= 0,
{
    lemma_digits_prefix_mono(s, 0);
    assert(s.take(0) =~= Seq::<char>::empty());
}

/// A string of at most `e` decimal digits stays under ten to the `e`.
pub proof fn lemma_digits_bounded(s: Seq<char>, e: int)
    requires
        all_dec_digits(s),
        s.len() <= e,
    ensures
        digits_val(s) < pow10(e),
    decreases s.len(),
{
    if s.len() == 0 {
        lemma_pow10_at_least_one(e);
    } else {
        assert(all_dec_digits(s.drop_last())) by {
            assert forall|i: int| 0 <= i < s.len() - 1 implies is_dec_digit(
                #[trigger] s.drop_last()[i],
            ) by {
                assert(s.drop_last()[i] == s[i]);
            }
        }
        lemma_digits_bounded(s.drop_last(), e - 1);
        assert(s.last() as int - '0' as int <= 9);
        assert(digits_val(s.drop_last()) * 10 + 9 < pow10(e - 1) * 10) by (nonlinear_arith)
            requires
                digits_val(s.drop_last()) < pow10(e - 1),
        ;
        assert(pow10(e) == 10 * pow10(e - 1));
    }
}

/// Ten to any power is at least one.
pub proof fn lemma_pow10_at_least_one(e: int)
    ensures
        pow10(e) >= 1,
    decreases
            if e >= 0 {
                e
            } else {
                0
            },
{
    if e > 0 {
        lemma_pow10_at_least_one(e - 1);
        assert(10 * pow10(e - 1) >= pow10(e - 1)) by (nonlinear_arith)
            requires
                pow10(e - 1) >= 1,
        ;
    }
}


/// The decimal digit character for a value below ten.
pub open spec fn spec_digit_char(d: int) -> char {
    if d == 0 {
        '0'
    } else if d == 1 {
        '1'
    } else if d == 2 {
        '2'
    } else if d == 3 {
        '3'
    } else if d == 4 {
        '4'
    } else if d == 5 {
        '5'
    } else if d == 6 {
        '6'
    } else if d == 7 {
        '7'
    } else if d == 8 {
        '8'
    } else {
        '9'
    }
}

/// The decimal digits of a non-negative number, most significant first.
pub open spec fn spec_digits(n: int) -> Seq<char>
    decreases n,
{
    if n < 10 {
        seq![spec_digit_char(n)]
    } else {
        spec_digits(n / 10) + seq![spec_digit_char(n % 10)]
    }
}

/// The text a fixed-point value is written as: an optional minus sign, the
/// whole part, a dot, and all nine decimal places.
pub open spec fn spec_render_fixed(v: int) -> Seq<char> {
    let m = if v < 0 {
        -v
    } else {
        v
    };
    let sign: Seq<char> = if v < 0 {
        seq!['-']
    } else {
        Seq::empty()
    };
    sign + spec_digits(m / (SCALE as int)) + seq!['.'] + spec_digits(
        (SCALE as int) + m % (SCALE as int),
    ).skip(1)
}

/// Renders a non-negative number as decimal digits.
pub fn render_u64(n: u64) -> (r: String)
    ensures
        r@ == spec_digits(n as int),
    decreases n,
{
    if n < 10 {
        let d: &str = if n == 0 {
            "0"
        } else if n == 1 {
            "1"
        } else if n == 2 {
            "2"
        } else if n == 3 {
            "3"
        } else if n == 4 {
            "4"
        } else if n == 5 {
            "5"
        } else if n == 6 {
            "6"
        } else if n == 7 {
            "7"
        } else if n == 8 {
            "8"
        } else {
            "9"
        };
        proof {
            reveal_strlit("0");
            reveal_strlit("1");
            reveal_strlit("2");
            reveal_strlit("3");
            reveal_strlit("4");
            reveal_strlit("5");
            reveal_strlit("6");
            reveal_strlit("7");
            reveal_strlit("8");
            reveal_strlit("9");
            assert(d@ =~= spec_digits(n as int));
        }
        d.to_owned()
    } else {
        let head = render_u64(n / 10);
        let d: u64 = n % 10;
        let tail: &str = if d == 0 {
            "0"
        } else if d == 1 {
            "1"
        } else if d == 2 {
            "2"
        } else if d == 3 {
            "3"
        } else if d == 4 {
            "4"
        } else if d == 5 {
            "5"
        } else if d == 6 {
            "6"
        } else if d == 7 {
            "7"
        } else if d == 8 {
            "8"
        } else {
            "9"
        };
        proof {
            reveal_strlit("0");
            reveal_strlit("1");
            reveal_strlit("2");
            reveal_strlit("3");
            reveal_strlit("4");
            reveal_strlit("5");
            reveal_strlit("6");
            reveal_strlit("7");
            reveal_strlit("8");
            reveal_strlit("9");
            assert(tail@ =~= seq![spec_digit_char(n as int % 10)]);
        }
        let r = head.concat(tail);
        proof {
            assert(r@ =~= spec_digits(n as int));
        }
        r
    }
}

/// Renders a fixed-point value: sign, whole part, and all nine decimal
/// places.
pub fn render_fixed(v: i64) -> (r: String)
    ensures
        r@ == spec_render_fixed(v as int),
{
    let m: u64 = if v < 0 {
        (-(v as i128)) as u64
    } else {
        v as u64
    };
    let whole = render_u64(m / (SCALE as u64));
    let fracx = render_u64((SCALE as u64) + m % (SCALE as u64));
    let n_fracx = fracx.as_str().unicode_len();
    proof {
        assert(pow10(10) == 10_000_000_000) by {
            reveal_with_fuel(pow10, 12);
        }
        lemma_digits_len_between(((SCALE as u64) + m % (SCALE as u64)) as int, 10);
    }
    let frac = fracx.as_str().substring_char(1, n_fracx);
    proof {
        assert(frac@ =~= spec_digits((SCALE as int) + (m as int) % (SCALE as int)).skip(1));
    }
    let mut out: String = if v < 0 {
        let s = "-".to_owned();
        proof {
            reveal_strlit("-");
        }
        s
    } else {
        let s = "".to_owned();
        proof {
            reveal_strlit("");
        }
        s
    };
    out.append(whole.as_str());
    out.append(".");
    proof {
        reveal_strlit(".");
    }
    out.append(frac);
    proof {
        assert(out@ =~= spec_render_fixed(v as int));
    }
    out
}

/// The text a signed integer is written as.
pub open spec fn spec_render_int(v: int) -> Seq<char> {
    if v < 0 {
        seq!['-'] + spec_digits(-v)
    } else {
        spec_digits(v)
    }
}

/// Renders a signed integer as decimal text.
pub fn render_i64(v: i64) -> (r: String)
    ensures
        r@ == spec_render_int(v as int),
{
    if v < 0 {
        let mut out = "-".to_owned();
        proof {
            reveal_strlit("-");
        }
        let digits = render_u64((-(v as i128)) as u64);
        out.append(digits.as_str());
        proof {
            assert(out@ =~= spec_render_int(v as int));
        }
        out
    } else {
        let r = render_u64(v as u64);
        proof {
            assert(r@ =~= spec_render_int(v as int));
        }
        r
    }
}

/// A number below ten to the `e` renders as at most `e` digits, and at
/// least one.
pub proof fn lemma_digits_len_between(n: int, e: int)
    requires
        0 <= n < pow10(e),
        e >= 1,
    ensures
        1 <= spec_digits(n).len() <= e,
    decreases e,
{
    if n >= 10 {
        vstd::arithmetic::div_mod::lemma_div_is_ordered(n, pow10(e) - 1, 10);
        assert((pow10(e) - 1) / 10 <= pow10(e - 1) - 1) by (nonlinear_arith)
            requires
                pow10(e) == 10 * pow10(e - 1),
        ;
        lemma_digits_len_between(n / 10, e - 1);
    }
}

} // verus!
