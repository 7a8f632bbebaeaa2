use vstd::prelude::*;
use vstd::string::StrSliceExecFns;

verus! {

// Runtime numbers are exact fixed-point decimals: a value is an integer count
// of millionths (`units`), so `3.25` is held as `3_250_000`.  This keeps
// decimal literals, arithmetic and printing exact over the ranges a script
// works with; an operation whose true result cannot be held is reported as a
// runtime error instead of being silently rounded.
pub const NUM_SCALE: i128 = 1000000;

/// Largest count of digits accepted before the decimal point in a literal;
/// anything longer is rejected as an invalid number.  The bound keeps every
/// accepted literal, converted to millionths, well inside `i128`.
pub const NUM_MAX_WHOLE_DIGITS: usize = 30;

pub open spec fn spec_is_digit(c: char) -> bool {
    '0' <= c && c <= '9'
}

pub open spec fn digit_val(c: char) -> int {
    c as int - '0' as int
}

/// The value of a digit string read in base 10.
pub open spec fn digits_val(s: Seq<char>) -> int
    decreases s.len(),
{
    if s.len() == 0 {
        0
    } else {
        digits_val(s.drop_last()) * 10 + digit_val(s.last())
    }
}

pub open spec fn all_digits(s: Seq<char>) -> bool {
    forall|i: int| 0 <= i < s.len() ==> spec_is_digit(s[i])
}

/// Division truncating toward zero, which is what machine division does.
pub open spec fn trunc_div(x: int, d: int) -> int {
    if x == 0 {
        0
    } else if x > 0 && d > 0 {
        x / d
    } else if x < 0 && d < 0 {
        (x * -1) / (d * -1)
    } else if x < 0 {
        ((x * -1) / d) * -1
    } else {
        (x / (d * -1)) * -1
    }
}

/// Whether a mathematical value is representable in the unit type.
pub open spec fn in_units_range(v: int) -> bool {
    i128::MIN <= v <= i128::MAX
}

pub open spec fn ten_pow(k: nat) -> int
    decreases k,
{
    if k == 0 {
        1
    } else {
        10 * ten_pow((k - 1) as nat)
    }
}

/// The sum of two numbers, if it is representable.
pub open spec fn sp_num_add(a: int, b: int) -> Option<int> {
    if in_units_range(a + b) {
        Some(a + b)
    } else {
        None
    }
}

/// The difference of two numbers, if it is representable.
pub open spec fn sp_num_sub(a: int, b: int) -> Option<int> {
    if in_units_range(a - b) {
        Some(a - b)
    } else {
        None
    }
}

/// The negation of a number, if it is representable.
pub open spec fn sp_num_neg(a: int) -> Option<int> {
    if in_units_range(-a) {
        Some(-a)
    } else {
        None
    }
}

/// The product of two numbers in units: the exact integer product rescaled,
/// truncated toward zero; not representable when the intermediate product
/// leaves the unit range.
pub open spec fn sp_num_mul(a: int, b: int) -> Option<int> {
    if in_units_range(a * b) {
        Some(trunc_div(a * b, NUM_SCALE as int))
    } else {
        None
    }
}

/// The quotient of two numbers in units, truncated toward zero; dividing by
/// zero or leaving the unit range in the rescaled dividend is an error.
pub open spec fn sp_num_div(a: int, b: int) -> Option<int> {
    if b == 0 {
        None
    } else if !in_units_range(a * (NUM_SCALE as int)) {
        None
    } else if !in_units_range(trunc_div(a * (NUM_SCALE as int), b)) {
        None
    } else {
        Some(trunc_div(a * (NUM_SCALE as int), b))
    }
}

pub fn num_add(a: i128, b: i128) -> (r: Option<i128>)
    ensures
        r == match sp_num_add(a as int, b as int) {
            Some(v) => Some(v as i128),
            None => None::<i128>,
        },
{
    a.checked_add(b)
}

pub fn num_sub(a: i128, b: i128) -> (r: Option<i128>)
    ensures
        r == match sp_num_sub(a as int, b as int) {
            Some(v) => Some(v as i128),
            None => None::<i128>,
        },
{
    a.checked_sub(b)
}

pub fn num_neg(a: i128) -> (r: Option<i128>)
    ensures
        r == match sp_num_neg(a as int) {
            Some(v) => Some(v as i128),
            None => None::<i128>,
        },
{
    if a == i128::MIN {
        None
    } else {
        Some(-a)
    }
}

pub fn num_mul(a: i128, b: i128) -> (r: Option<i128>)
    ensures
        r == match sp_num_mul(a as int, b as int) {
            Some(v) => Some(v as i128),
            None => None::<i128>,
        },
{
    match a.checked_mul(b) {
        Some(p) => {
            proof {
                num_div_in_range(p as int, NUM_SCALE as int);
            }
            p.checked_div(NUM_SCALE)
        },
        None => None,
    }
}

pub fn num_div(a: i128, b: i128) -> (r: Option<i128>)
    ensures
        r == match sp_num_div(a as int, b as int) {
            Some(v) => Some(v as i128),
            None => None::<i128>,
        },
{
    if b == 0 {
        None
    } else {
        match a.checked_mul(NUM_SCALE) {
            Some(p) => p.checked_div(b),
            None => None,
        }
    }
}

proof fn num_div_in_range(p: int, b: int)
    requires
        in_units_range(p),
        b != 0,
        !(p == i128::MIN && b == -1),
    ensures
        in_units_range(trunc_div(p, b)),
{
    let q = trunc_div(p, b);
    if p == 0 {
    } else if p > 0 && b > 0 {
        assert(p / b <= p) by (nonlinear_arith)
            requires
                p > 0 && b > 0,
        ;
        assert(p / b >= 0) by (nonlinear_arith)
            requires
                p > 0 && b > 0,
        ;
    } else if p < 0 && b < 0 {
        assert((p * -1) / (b * -1) >= 0) by (nonlinear_arith)
            requires
                p < 0 && b < 0,
        ;
        if b == -1 {
            assert((p * -1) / (b * -1) == p * -1);
            assert(p * -1 <= i128::MAX);
        } else {
            assert((p * -1) / (b * -1) <= (p * -1) / 2) by (nonlinear_arith)
                requires
                    p < 0 && b < -1,
            ;
        }
    } else if p < 0 {
        assert((p * -1) / b <= p * -1) by (nonlinear_arith)
            requires
                p < 0 && b > 0,
        ;
        assert((p * -1) / b >= 0) by (nonlinear_arith)
            requires
                p < 0 && b > 0,
        ;
    } else {
        assert(p / (b * -1) <= p) by (nonlinear_arith)
            requires
                p > 0 && b < 0,
        ;
        assert(p / (b * -1) >= 0) by (nonlinear_arith)
            requires
                p > 0 && b < 0,
        ;
    }
}

/// The decimal digit sequence of a nonnegative integer, without sign.
pub open spec fn dec_text(n: nat) -> Seq<char>
    decreases n,
{
    if n < 10 {
        seq![dec_digit_char(n)]
    } else {
        dec_text(n / 10) + seq![dec_digit_char(n % 10)]
    }
}

pub open spec fn dec_digit_char(n: nat) -> char {
    if n == 0 {
        '0'
    } else if n == 1 {
        '1'
    } else if n == 2 {
        '2'
    } else if n == 3 {
        '3'
    } else if n == 4 {
        '4'
    } else if n == 5 {
        '5'
    } else if n == 6 {
        '6'
    } else if n == 7 {
        '7'
    } else if n == 8 {
        '8'
    } else {
        '9'
    }
}

fn dec_digit_of(n: u128) -> (c: char)
    requires
        n < 10,
    ensures
        c == dec_digit_char(n as nat),
{
    if n == 0 {
        '0'
    } else if n == 1 {
        '1'
    } else if n == 2 {
        '2'
    } else if n == 3 {
        '3'
    } else if n == 4 {
        '4'
    } else if n == 5 {
        '5'
    } else if n == 6 {
        '6'
    } else if n == 7 {
        '7'
    } else if n == 8 {
        '8'
    } else {
        '9'
    }
}

fn dec_chars(n: u128) -> (r: Vec<char>)
    ensures
        r@ == dec_text(n as nat),
    decreases n,
{
    if n < 10 {
        let mut v: Vec<char> = Vec::new();
        v.push(dec_digit_of(n));
        proof {
            assert(v@ =~= dec_text(n as nat));
        }
        v
    } else {
        let mut v = dec_chars(n / 10);
        v.push(dec_digit_of(n % 10));
        proof {
            assert(v@ =~= dec_text(n as nat));
        }
        v
    }
}

/// Position of the first `.` at or after `i`, if any.
pub open spec fn find_dot(s: Seq<char>, i: int) -> Option<int>
    decreases s.len() - i,
        when 0 <= i <= s.len()
{
    if i >= s.len() {
        None
    } else if s[i] == '.' {
        Some(i)
    } else {
        find_dot(s, i + 1)
    }
}

/// The digits before the decimal point of a literal (all of it, if none).
pub open spec fn lit_whole(s: Seq<char>) -> Seq<char> {
    match find_dot(s, 0) {
        Some(d) => s.subrange(0, d),
        None => s,
    }
}

/// The digits after the decimal point of a literal, empty if none.
pub open spec fn lit_frac(s: Seq<char>) -> Seq<char> {
    match find_dot(s, 0) {
        Some(d) => s.subrange(d + 1, s.len() as int),
        None => Seq::empty(),
    }
}

/// A well-formed numeric literal: digits, at most one point, with at least
/// one digit on each side of a point that is present.
pub open spec fn wf_lit(s: Seq<char>) -> bool {
    lit_whole(s).len() > 0 && all_digits(lit_whole(s)) && all_digits(lit_frac(s)) && (find_dot(
        s,
        0,
    ) is Some ==> lit_frac(s).len() > 0)
}

/// The value in units contributed by the fractional digits: only the first
/// six count, shorter runs are scaled up.
pub open spec fn frac_units(f: Seq<char>) -> int {
    let f6 = if f.len() >= 6 {
        f.subrange(0, 6)
    } else {
        f
    };
    digits_val(f6) * ten_pow((6 - f6.len()) as nat)
}

/// The units a numeric literal stands for: its exact decimal value, the
/// fractional part truncated to six digits; a malformed literal, or one with
/// more integer digits than the representation admits, has no value.
pub open spec fn sp_num_of_lit(s: Seq<char>) -> Option<int> {
    if !wf_lit(s) {
        None
    } else if lit_whole(s).len() > NUM_MAX_WHOLE_DIGITS {
        None
    } else {
        Some(digits_val(lit_whole(s)) * (NUM_SCALE as int) + frac_units(lit_frac(s)))
    }
}

proof fn digits_val_bounds(s: Seq<char>)
    requires
        all_digits(s),
    ensures
        0 <= digits_val(s) < ten_pow(s.len()),
    decreases s.len(),
{
    if s.len() > 0 {
        digits_val_bounds(s.drop_last());
        assert(digits_val(s) == digits_val(s.drop_last()) * 10 + digit_val(s.last()));
        assert(digits_val(s.drop_last()) * 10 <= (ten_pow((s.len() - 1) as nat) - 1) * 10)
            by (nonlinear_arith)
            requires
                digits_val(s.drop_last()) <= ten_pow((s.len() - 1) as nat) - 1,
        ;
    }
}

proof fn ten_pow_30_value()
    ensures
        ten_pow(30) == 1000000000000000000000000000000,
{
    reveal_with_fuel(ten_pow, 32);
}

proof fn ten_pow_mono(a: nat, b: nat)
    requires
        a <= b,
    ensures
        ten_pow(a) <= ten_pow(b),
        ten_pow(a) >= 1,
    decreases b,
{
    if a == b {
        if a > 0 {
            ten_pow_mono((a - 1) as nat, (b - 1) as nat);
        }
    } else {
        ten_pow_mono(a, (b - 1) as nat);
        assert(ten_pow(b) == 10 * ten_pow((b - 1) as nat));
    }
}

fn is_digit_ch(c: char) -> (r: bool)
    ensures
        r == spec_is_digit(c),
{
    let u = c as u32;
    48 <= u && u <= 57
}

fn digit_of(c: char) -> (r: i128)
    requires
        spec_is_digit(c),
    ensures
        r == digit_val(c),
        0 <= r <= 9,
{
    ((c as u32) - 48) as i128
}

fn find_dot_x(text: &Vec<char>, i: usize) -> (r: Option<usize>)
    requires
        i <= text.len(),
    ensures
        match r {
            Some(k) => find_dot(text@, i as int) == Some(k as int) && i <= k < text.len(),
            None => find_dot(text@, i as int) is None,
        },
    decreases text.len() - i,
{
    if i >= text.len() {
        None
    } else if text[i] == '.' {
        Some(i)
    } else {
        find_dot_x(text, i + 1)
    }
}

/// Whether every character in `text[i..j]` is a digit; first offender aside.
fn all_digits_in(text: &Vec<char>, i: usize, j: usize) -> (r: bool)
    requires
        i <= j <= text.len(),
    ensures
        r == all_digits(text@.subrange(i as int, j as int)),
    decreases j - i,
{
    if i >= j {
        proof {
            assert(all_digits(text@.subrange(i as int, j as int)));
        }
        true
    } else if !is_digit_ch(text[i]) {
        proof {
            assert(text@.subrange(i as int, j as int)[0] == text@[i as int]);
        }
        false
    } else {
        let rest = all_digits_in(text, i + 1, j);
        proof {
            let whole = text@.subrange(i as int, j as int);
            let tail = text@.subrange(i + 1, j as int);
            assert forall|k: int| 0 <= k < tail.len() implies tail[k] == whole[k + 1] by {}
            if rest {
                assert forall|k: int| 0 <= k < whole.len() implies spec_is_digit(whole[k]) by {
                    if k > 0 {
                        assert(whole[k] == tail[k - 1]);
                    }
                }
            } else {
                let bad = choose|k: int| 0 <= k < tail.len() && !spec_is_digit(tail[k]);
                assert(whole[bad + 1] == tail[bad]);
            }
        }
        rest
    }
}

/// Reads the value of the digit run `text[i..j]`, which stays well inside
/// the unit type for the lengths the callers admit.
fn digits_value_in(text: &Vec<char>, i: usize, j: usize) -> (r: i128)
    requires
        i <= j <= text.len(),
        all_digits(text@.subrange(i as int, j as int)),
        j - i <= 30,
    ensures
        r == digits_val(text@.subrange(i as int, j as int)),
        0 <= r < 1000000000000000000000000000000,
{
    proof {
        ten_pow_30_value();
    }
    let mut acc: i128 = 0;
    let mut k: usize = i;
    while k < j
        invariant
            i <= k <= j <= text.len(),
            all_digits(text@.subrange(i as int, j as int)),
            j - i <= 30,
            acc == digits_val(text@.subrange(i as int, k as int)),
            0 <= acc < ten_pow((k - i) as nat),
            ten_pow(30) == 1000000000000000000000000000000,
        decreases j - k,
    {
        proof {
            ten_pow_mono(((k + 1) - i) as nat, 30);
            assert(text@.subrange(i as int, k + 1).drop_last() =~= text@.subrange(
                i as int,
                k as int,
            ));
            assert(text@.subrange(i as int, k + 1).last() == text@[k as int]);
            assert(spec_is_digit(text@[k as int])) by {
                assert(text@.subrange(i as int, j as int)[k - i] == text@[k as int]);
            }
            assert(acc * 10 <= (ten_pow((k - i) as nat) - 1) * 10) by (nonlinear_arith)
                requires
                    acc <= ten_pow((k - i) as nat) - 1,
            ;
            assert(ten_pow(((k + 1) - i) as nat) == 10 * ten_pow((k - i) as nat));
        }
        let d = digit_of(text[k]);
        acc = acc * 10 + d;
        k = k + 1;
    }
    proof {
        ten_pow_mono((j - i) as nat, 30);
    }
    acc
}

fn ten_pow_x(k: usize) -> (r: i128)
    requires
        k <= 6,
    ensures
        r == ten_pow(k as nat),
{
    proof {
        reveal_with_fuel(ten_pow, 8);
    }
    if k == 0 {
        1
    } else if k == 1 {
        10
    } else if k == 2 {
        100
    } else if k == 3 {
        1000
    } else if k == 4 {
        10000
    } else if k == 5 {
        100000
    } else {
        1000000
    }
}

/// The units a numeric literal's characters stand for; see `sp_num_of_lit`.
pub fn num_of_lit(text: &Vec<char>) -> (r: Option<i128>)
    ensures
        match sp_num_of_lit(text@) {
            Some(v) => r matches Some(u) && u as int == v,
            None => r is None,
        },
{
    let n = text.len();
    let dot = find_dot_x(text, 0);
    let w_end = match dot {
        Some(d) => d,
        None => n,
    };
    proof {
        if dot is Some {
            assert(lit_whole(text@) =~= text@.subrange(0, w_end as int));
            assert(lit_frac(text@) =~= text@.subrange(w_end + 1, n as int));
        } else {
            assert(lit_whole(text@) =~= text@.subrange(0, w_end as int));
            assert(lit_frac(text@) =~= text@.subrange(n as int, n as int));
        }
    }
    if w_end == 0 {
        return None;
    }
    if !all_digits_in(text, 0, w_end) {
        return None;
    }
    let f_start = match dot {
        Some(d) => {
            if d + 1 >= n {
                return None;
            }
            if !all_digits_in(text, d + 1, n) {
                return None;
            }
            d + 1
        },
        None => n,
    };
    if w_end > 30 {
        return None;
    }
    let w = digits_value_in(text, 0, w_end);
    let f_len = n - f_start;
    let f_take = if f_len >= 6 {
        6
    } else {
        f_len
    };
    proof {
        let f = lit_frac(text@);
        if f.len() >= 6 {
            assert(text@.subrange(f_start as int, f_start + f_take) =~= f.subrange(0, 6));
        } else {
            assert(text@.subrange(f_start as int, f_start + f_take) =~= f);
        }
        assert(all_digits(text@.subrange(f_start as int, f_start + f_take)));
        digits_val_bounds(text@.subrange(f_start as int, f_start + f_take));
        ten_pow_mono((f_take) as nat, 6);
        ten_pow_mono((6 - f_take) as nat, 6);
        ten_pow_product(f_take as nat, (6 - f_take) as nat);
        reveal_with_fuel(ten_pow, 8);
        assert(ten_pow(6) == 1000000);
    }
    let fv = digits_value_in(text, f_start, f_start + f_take);
    proof {
        assert(fv * ten_pow((6 - f_take) as nat) < 1000000) by (nonlinear_arith)
            requires
                0 <= fv < ten_pow(f_take as nat),
                ten_pow(f_take as nat) * ten_pow((6 - f_take) as nat) == 1000000,
                ten_pow((6 - f_take) as nat) >= 1,
        ;
    }
    let scaled_f = fv * ten_pow_x(6 - f_take);
    Some(w * 1000000 + scaled_f)
}

proof fn ten_pow_product(a: nat, b: nat)
    ensures
        ten_pow(a) * ten_pow(b) == ten_pow(a + b),
    decreases a,
{
    if a == 0 {
        assert(ten_pow(0) == 1);
    } else {
        ten_pow_product((a - 1) as nat, b);
        assert(ten_pow(a) * ten_pow(b) == 10 * (ten_pow((a - 1) as nat) * ten_pow(b)))
            by (nonlinear_arith)
            requires
                ten_pow(a) == 10 * ten_pow((a - 1) as nat),
        ;
    }
}

/// Trailing zeros removed, as fraction digits print without them.
pub open spec fn trim_zeros(s: Seq<char>) -> Seq<char>
    decreases s.len(),
{
    if s.len() > 0 && s.last() == '0' {
        trim_zeros(s.drop_last())
    } else {
        s
    }
}

/// The six fraction digits of `f` in units, zero-padded on the left.
pub open spec fn frac6(f: nat) -> Seq<char> {
    dec_text((f + 1000000) as nat).skip(1)
}

/// The decimal text of a number in units: optional sign, the integer part,
/// and, when the fraction is nonzero, a point and the fraction digits with
/// trailing zeros dropped.
pub open spec fn sp_num_text(u: int) -> Seq<char> {
    let a = if u < 0 {
        -u
    } else {
        u
    };
    let w = a / (NUM_SCALE as int);
    let f = a % (NUM_SCALE as int);
    let sign: Seq<char> = if u < 0 {
        "-"@
    } else {
        Seq::empty()
    };
    if f == 0 {
        sign + dec_text(w as nat)
    } else {
        sign + dec_text(w as nat) + "."@ + trim_zeros(frac6(f as nat))
    }
}

fn abs_units(u: i128) -> (r: u128)
    ensures
        r as int == if u < 0 {
            -(u as int)
        } else {
            u as int
        },
{
    if u >= 0 {
        u as u128
    } else {
        ((-(u + 1)) as u128) + 1
    }
}

/// The decimal text of a number in units; see `sp_num_text`.
pub fn num_text(u: i128) -> (s: String)
    ensures
        s@ == sp_num_text(u as int),
{
    let a = abs_units(u);
    let w = a / 1000000u128;
    let f = a % 1000000u128;
    let mut out: Vec<char> = Vec::new();
    if u < 0 {
        out.push('-');
        proof {
            reveal_strlit("-");
            assert(out@ =~= "-"@);
        }
    }
    proof {
        assert(w as int == (if u < 0 {
            -(u as int)
        } else {
            u as int
        }) / (NUM_SCALE as int));
    }
    let mut wd = dec_chars(w);
    let ghost out_sign = out@;
    out.append(&mut wd);
    if f == 0 {
        proof {
            assert(out@ =~= sp_num_text(u as int));
        }
        crate::number::chars_to_string(&out)
    } else {
        out.push('.');
        let mut fd = dec_chars(f + 1000000u128);
        let ghost fd0 = fd@;
        let _one = fd.remove(0);
        proof {
            assert(fd@ =~= fd0.skip(1));
            assert(fd@ =~= frac6(f as nat));
        }
        while fd.len() > 0 && fd[fd.len() - 1] == '0'
            invariant
                trim_zeros(fd@) == trim_zeros(frac6(f as nat)),
            decreases fd.len(),
        {
            let ghost pre = fd@;
            let _z = fd.pop();
            proof {
                assert(pre.drop_last() =~= fd@);
            }
        }
        proof {
            assert(trim_zeros(fd@) == fd@);
            reveal_strlit(".");
            reveal_strlit("-");
            assert(out@ + fd@ =~= sp_num_text(u as int));
        }
        let ghost out_dot = out@;
        out.append(&mut fd);
        proof {
            assert(out@ =~= sp_num_text(u as int));
        }
        crate::number::chars_to_string(&out)
    }
}

/// A canonically written numeric literal: the integer digits carry no
/// leading zero (a lone `0` aside), and the fraction, when present, has no
/// trailing zero and at most the digits the representation keeps.
pub open spec fn canonical_lit(s: Seq<char>) -> bool {
    &&& wf_lit(s)
    &&& lit_whole(s).len() <= NUM_MAX_WHOLE_DIGITS
    &&& (lit_whole(s) == "0"@ || lit_whole(s)[0] != '0')
    &&& lit_frac(s).len() <= 6
    &&& (lit_frac(s).len() > 0 ==> lit_frac(s).last() != '0')
}

pub proof fn dec_digit_char_val(c: char)
    requires
        spec_is_digit(c),
    ensures
        dec_digit_char(digit_val(c) as nat) == c,
{
}

/// A digit string without a leading zero reads back from its value.
pub proof fn digits_round_trip(w: Seq<char>)
    requires
        w.len() > 0,
        all_digits(w),
        w == "0"@ || w[0] != '0',
    ensures
        dec_text(digits_val(w) as nat) == w,
    decreases w.len(),
{
    reveal_strlit("0");
    digits_val_bounds(w);
    if w.len() == 1 {
        assert(spec_is_digit(w[0]));
        assert(w.last() == w[0]);
        assert(w.drop_last() =~= Seq::<char>::empty());
        assert(digits_val(Seq::<char>::empty()) == 0);
        assert(digits_val(w) == digit_val(w[0]));
        dec_digit_char_val(w[0]);
        assert(dec_text(digits_val(w) as nat) =~= w);
    } else {
        let head = w.drop_last();
        let d = digit_val(w.last());
        digits_val_bounds(head);
        assert(head[0] == w[0]);
        if w[0] == '0' {
            assert(w != "0"@);
            assert(false);
        }
        digits_lower_bound(head);
        assert(digits_val(head) >= 1);
        let n = digits_val(w);
        assert(n == digits_val(head) * 10 + d);
        assert(n >= 10) by (nonlinear_arith)
            requires
                n == digits_val(head) * 10 + d,
                digits_val(head) >= 1,
                d >= 0,
        ;
        assert(n / 10 == digits_val(head) && n % 10 == d) by (nonlinear_arith)
            requires
                n == digits_val(head) * 10 + d,
                0 <= d < 10,
                digits_val(head) >= 0,
        ;
        digits_round_trip(head);
        dec_digit_char_val(w.last());
        assert(dec_text(n as nat) =~= head + seq![w.last()]);
        assert(head + seq![w.last()] =~= w);
    }
}

/// A digit string without a leading zero is worth at least the power of ten
/// of its length.
pub proof fn digits_lower_bound(w: Seq<char>)
    requires
        w.len() > 0,
        all_digits(w),
        w[0] != '0',
    ensures
        digits_val(w) >= ten_pow((w.len() - 1) as nat),
    decreases w.len(),
{
    if w.len() == 1 {
        assert(spec_is_digit(w[0]));
        assert(w.last() == w[0]);
        assert(w.drop_last() =~= Seq::<char>::empty());
        assert(digits_val(Seq::<char>::empty()) == 0);
        assert(digits_val(w) == digit_val(w[0]));
        assert(digit_val(w[0]) >= 1);
        assert(ten_pow(0) == 1);
    } else {
        let head = w.drop_last();
        assert(head[0] == w[0]);
        assert(all_digits(head)) by {
            assert forall|i: int| 0 <= i < head.len() implies spec_is_digit(head[i]) by {
                assert(head[i] == w[i]);
            }
        }
        assert(spec_is_digit(w.last()));
        digits_lower_bound(head);
        assert(digits_val(w) == digits_val(head) * 10 + digit_val(w.last()));
        assert(digits_val(head) * 10 >= ten_pow((head.len() - 1) as nat) * 10)
            by (nonlinear_arith)
            requires
                digits_val(head) >= ten_pow((head.len() - 1) as nat),
        ;
        assert(ten_pow((w.len() - 1) as nat) == 10 * ten_pow((w.len() - 2) as nat));
    }
}

/// The value of two digit runs in sequence.
pub proof fn digits_val_concat(a: Seq<char>, b: Seq<char>)
    ensures
        digits_val(a + b) == digits_val(a) * ten_pow(b.len()) + digits_val(b),
    decreases b.len(),
{
    if b.len() == 0 {
        assert(a + b =~= a);
        assert(ten_pow(0) == 1);
    } else {
        digits_val_concat(a, b.drop_last());
        assert((a + b).drop_last() =~= a + b.drop_last());
        assert((a + b).last() == b.last());
        assert(digits_val(a + b) == (digits_val(a) * ten_pow((b.len() - 1) as nat) + digits_val(
            b.drop_last(),
        )) * 10 + digit_val(b.last()));
        assert(digits_val(a) * ten_pow((b.len() - 1) as nat) * 10 == digits_val(a) * ten_pow(
            b.len(),
        )) by (nonlinear_arith)
            requires
                ten_pow(b.len()) == 10 * ten_pow((b.len() - 1) as nat),
        ;
        assert((digits_val(a) * ten_pow((b.len() - 1) as nat) + digits_val(b.drop_last())) * 10
            == digits_val(a) * ten_pow((b.len() - 1) as nat) * 10 + digits_val(b.drop_last())
            * 10) by (nonlinear_arith);
    }
}

/// A run of zeros is worth zero.
pub proof fn zeros_val(z: Seq<char>)
    requires
        forall|i: int| 0 <= i < z.len() ==> z[i] == '0',
    ensures
        digits_val(z) == 0,
        all_digits(z),
    decreases z.len(),
{
    if z.len() > 0 {
        zeros_val(z.drop_last());
    }
}

/// Trailing zeros do not survive trimming, and a run that does not end in
/// zero is left alone.
pub proof fn trim_zeros_pad(f: Seq<char>, z: Seq<char>)
    requires
        forall|i: int| 0 <= i < z.len() ==> z[i] == '0',
        f.len() == 0 || f.last() != '0',
    ensures
        trim_zeros(f + z) == f,
    decreases z.len(),
{
    if z.len() == 0 {
        assert(f + z =~= f);
        if f.len() > 0 {
            assert(trim_zeros(f) == f);
        }
    } else {
        assert((f + z).last() == z.last());
        assert((f + z).drop_last() =~= f + z.drop_last());
        trim_zeros_pad(f, z.drop_last());
    }
}

/// The sequence of `k` zero characters.
pub open spec fn zero_run(k: nat) -> Seq<char> {
    Seq::new(k, |i: int| '0')
}

/// A canonical literal prints back as itself: the decimal text of the value
/// the literal stands for is exactly the literal.
pub proof fn lemma_lit_text_round_trip(s: Seq<char>)
    requires
        canonical_lit(s),
    ensures
        sp_num_of_lit(s) matches Some(v) && sp_num_text(v) == s,
{
    reveal_strlit("0");
    let w = lit_whole(s);
    let f = lit_frac(s);
    assert(sp_num_of_lit(s) is Some);
    let v = sp_num_of_lit(s)->0;
    let fw = digits_val(w);
    let z = zero_run((6 - f.len()) as nat);
    zeros_val(z);
    let g = f + z;
    digits_val_concat(f, z);
    assert(digits_val(g) == digits_val(f) * ten_pow((6 - f.len()) as nat));
    assert(frac_units(f) == digits_val(g)) by {
        assert(f.len() <= 6);
        assert((if f.len() >= 6 {
            f.subrange(0, 6)
        } else {
            f
        }) =~= f);
    }
    let fr = frac_units(f);
    digits_val_bounds(g);
    assert(g.len() == 6);
    reveal_with_fuel(ten_pow, 8);
    assert(0 <= fr < 1000000);
    digits_val_bounds(w);
    assert(v == fw * 1000000 + fr);
    assert(fw >= 0);
    assert(v >= 0) by (nonlinear_arith)
        requires
            v == fw * 1000000 + fr,
            fw >= 0,
            fr >= 0,
    ;
    assert(v / 1000000 == fw && v % 1000000 == fr) by (nonlinear_arith)
        requires
            v == fw * 1000000 + fr,
            0 <= fr < 1000000,
            fw >= 0,
    ;
    digits_round_trip(w);
    if f.len() == 0 {
        assert(fr == 0);
        assert(find_dot(s, 0) is None) by {
            if find_dot(s, 0) is Some {
                assert(f.len() > 0);
            }
        }
        assert(s =~= w);
        assert(sp_num_text(v) =~= s);
    } else {
        assert(fr > 0) by {
            digits_nonzero_somewhere(f);
            assert(digits_val(f) >= 1);
            assert(ten_pow((6 - f.len()) as nat) >= 1) by {
                ten_pow_mono(0, (6 - f.len()) as nat);
            }
            assert(digits_val(f) * ten_pow((6 - f.len()) as nat) >= 1) by (nonlinear_arith)
                requires
                    digits_val(f) >= 1,
                    ten_pow((6 - f.len()) as nat) >= 1,
            ;
        }
        // The padded six digits read back as the fraction digits plus the
        // zero run, so trimming recovers the written fraction.
        let one_g = "1"@ + g;
        digits_val_concat("1"@, g);
        reveal_strlit("1");
        assert(digits_val("1"@) == 1) by {
            assert(("1"@).len() == 1);
            assert(("1"@).drop_last() =~= Seq::<char>::empty());
            assert(digits_val(Seq::<char>::empty()) == 0);
            assert(("1"@).last() == '1');
            assert(digit_val('1') == 1);
        }
        assert(digits_val(one_g) == 1 * ten_pow(6) + digits_val(g));
        assert(digits_val(one_g) == fr + 1000000);
        assert(one_g[0] == '1');
        assert(all_digits(one_g)) by {
            assert forall|i: int| 0 <= i < one_g.len() implies spec_is_digit(one_g[i]) by {
                if i >= 1 {
                    assert(one_g[i] == g[i - 1]);
                }
            }
        }
        digits_round_trip(one_g);
        assert(frac6(fr as nat) =~= g) by {
            assert(dec_text((fr + 1000000) as nat) == one_g);
            assert(one_g.skip(1) =~= g);
        }
        trim_zeros_pad(f, z);
        assert(trim_zeros(frac6(fr as nat)) == f);
        let d = find_dot(s, 0)->0;
        find_dot_splits(s);
        assert(sp_num_text(v) =~= s);
    }
}

/// A nonzero-reading digit run exists only when some digit is nonzero; in
/// particular a canonical fraction, ending in a nonzero digit, reads as a
/// positive value.
proof fn digits_nonzero_somewhere(f: Seq<char>)
    requires
        all_digits(f),
        f.len() > 0,
        f.last() != '0',
    ensures
        digits_val(f) >= 1,
    decreases f.len(),
{
    digits_val_bounds(f.drop_last());
    assert(digit_val(f.last()) >= 1);
    assert(digits_val(f.drop_last()) * 10 >= 0) by (nonlinear_arith)
        requires
            digits_val(f.drop_last()) >= 0,
    ;
}

/// Where the first point sits, it is in range and is a point.
proof fn find_dot_props(s: Seq<char>, i: int)
    requires
        0 <= i <= s.len(),
    ensures
        match find_dot(s, i) {
            Some(d) => i <= d < s.len() && s[d] == '.',
            None => true,
        },
    decreases s.len() - i,
{
    if i < s.len() && s[i] != '.' {
        find_dot_props(s, i + 1);
    }
}

/// A literal with a decimal point is its integer digits, the point, and its
/// fraction digits, in that order.
proof fn find_dot_splits(s: Seq<char>)
    requires
        find_dot(s, 0) is Some,
    ensures
        s =~= lit_whole(s) + "."@ + lit_frac(s),
{
    reveal_strlit(".");
    find_dot_props(s, 0);
    let d = find_dot(s, 0)->0;
    assert(lit_whole(s) == s.subrange(0, d));
    assert(lit_frac(s) == s.subrange(d + 1, s.len() as int));
}

/// The characters of a string, in order, as a vector.
pub fn text_chars(s: &String) -> (v: Vec<char>)
    ensures
        v@ == s@,
{
    let st = s.as_str();
    let n = st.unicode_len();
    let mut v: Vec<char> = Vec::new();
    let mut i: usize = 0;
    while i < n
        invariant
            i <= n,
            n == s@.len(),
            st@ == s@,
            v@ == s@.subrange(0, i as int),
        decreases n - i,
    {
        v.push(st.get_char(i));
        proof {
            assert(v@ =~= s@.subrange(0, i + 1));
        }
        i = i + 1;
    }
    proof {
        assert(v@ =~= s@);
    }
    v
}

/// Turns a vector of characters into a `String` holding exactly them.
/// Relies on `String`'s `FromIterator` over `char`, which collects the
/// characters in order.
#[verifier::external_body]
pub fn chars_to_string(v: &Vec<char>) -> (s: String)
    ensures
        s@ == v@,
{
    v.iter().collect()
}

/// The decimal text of a `usize`, e.g. for report lines.
pub fn usize_text(n: usize) -> (s: String)
    ensures
        s@ == dec_text(n as nat),
{
    let v = dec_chars(n as u128);
    chars_to_string(&v)
}

} // verus!
