//! Exact fixed-point decimal numbers.
//!
//! A `Decimal` holds a finite decimal value as an `i64` mantissa scaled by
//! one million, so every value with at most six fractional digits is stored
//! exactly. The module defines, at the specification level, which character
//! sequences are decimal numerals and what scaled value they denote, and a
//! verified parser from text to `Decimal` that succeeds exactly on the
//! numerals whose value fits the mantissa range.

use vstd::prelude::*;

verus! {

/// Every stored value is `mantissa / SCALE`.
pub const SCALE: i64 = 1_000_000;

/// Number of fractional digits a mantissa carries.
pub const FRAC_DIGITS: u32 = 6;

/// Largest integer part whose scaled form can still fit in an `i64`
/// (`i64::MAX / SCALE`, rounded down).
pub const INT_LIMIT: i64 = 9_223_372_036_854;

/// A finite decimal number, held exactly as `mantissa / 1_000_000`.
#[derive(Clone, Copy, Debug, PartialEq, Eq, Structural)]
pub struct Decimal {
    pub mantissa: i64,
}

/// The ten decimal digit characters.
pub open spec fn is_digit(c: char) -> bool {
    48 <= c as u32 <= 57
}

/// Numeric value of a digit character.
pub open spec fn digit_val(c: char) -> int {
    c as u32 - 48
}

/// Every character of `s` is a decimal digit.
pub open spec fn all_digits(s: Seq<char>) -> bool {
    forall|i: int| 0 <= i < s.len() ==> is_digit(#[trigger] s[i])
}

/// Value of a digit string read in base ten; zero for the empty string.
pub open spec fn digits_val(s: Seq<char>) -> int
    decreases s.len(),
{
    if s.len() == 0 {
        0
    } else {
        digits_val(s.drop_last()) * 10 + digit_val(s.last())
    }
}

/// Ten raised to `n`.
pub open spec fn pow10(n: nat) -> int
    decreases n,
{
    if n == 0 {
        1
    } else {
        10 * pow10((n - 1) as nat)
    }
}

/// `s` contains a decimal point.
pub open spec fn has_dot(s: Seq<char>) -> bool {
    exists|i: int| 0 <= i < s.len() && s[i] == '.'
}

/// Index of the decimal point, or the length of `s` when there is none.
/// For a well-formed numeral the point is unique, so the choice is fixed.
pub open spec fn dot_pos(s: Seq<char>) -> int {
    if has_dot(s) {
        choose|i: int| 0 <= i < s.len() && s[i] == '.'
    } else {
        s.len() as int
    }
}

/// The digits before the decimal point (the whole of `s` when none).
pub open spec fn int_digits(s: Seq<char>) -> Seq<char> {
    s.subrange(0, dot_pos(s))
}

/// The digits after the decimal point; empty when there is none.
pub open spec fn frac_digits(s: Seq<char>) -> Seq<char> {
    if has_dot(s) {
        s.subrange(dot_pos(s) + 1, s.len() as int)
    } else {
        Seq::<char>::empty()
    }
}

/// An unsigned decimal numeral: digits around at most one decimal point,
/// with at least one digit in all and at most `FRAC_DIGITS` of them
/// after the point.
pub open spec fn is_unsigned_decimal(s: Seq<char>) -> bool {
    &&& all_digits(int_digits(s))
    &&& all_digits(frac_digits(s))
    &&& int_digits(s).len() + frac_digits(s).len() > 0
    &&& frac_digits(s).len() <= FRAC_DIGITS
}

/// Scaled integer value of an unsigned decimal numeral.
pub open spec fn unsigned_mantissa(s: Seq<char>) -> int {
    digits_val(int_digits(s)) * SCALE + digits_val(frac_digits(s)) * pow10(
        (FRAC_DIGITS - frac_digits(s).len()) as nat,
    )
}

/// `s` starts with an explicit sign character.
pub open spec fn has_sign(s: Seq<char>) -> bool {
    s.len() > 0 && (s[0] == '-' || s[0] == '+')
}

/// `s` with any leading sign removed.
pub open spec fn numeral_of(s: Seq<char>) -> Seq<char> {
    if has_sign(s) {
        s.subrange(1, s.len() as int)
    } else {
        s
    }
}

/// `-1` for a leading minus sign, `1` otherwise.
pub open spec fn sign_of(s: Seq<char>) -> int {
    if s.len() > 0 && s[0] == '-' {
        -1
    } else {
        1
    }
}

/// A decimal text: an optional sign followed by an unsigned numeral.
pub open spec fn is_decimal_text(s: Seq<char>) -> bool {
    is_unsigned_decimal(numeral_of(s))
}

/// Scaled integer value of a decimal text.
pub open spec fn decimal_mantissa(s: Seq<char>) -> int {
    sign_of(s) * unsigned_mantissa(numeral_of(s))
}

/// The magnitude of the text's value fits the mantissa range of `Decimal`.
pub open spec fn decimal_fits(s: Seq<char>) -> bool {
    unsigned_mantissa(numeral_of(s)) <= i64::MAX as int
}

/// A digit string's value is nonnegative and below ten to its length.
pub proof fn lemma_digits_val_bounds(s: Seq<char>)
    requires
        all_digits(s),
    ensures
        0 <= digits_val(s) < pow10(s.len()),
    decreases s.len(),
{
    if s.len() > 0 {
        assert forall|i: int| 0 <= i < s.drop_last().len() implies is_digit(
            #[trigger] s.drop_last()[i],
        ) by {
            assert(s.drop_last()[i] == s[i]);
        }
        lemma_digits_val_bounds(s.drop_last());
        assert(is_digit(s.last()));
    }
}

/// Reading one more digit multiplies the value by ten and adds the digit.
pub proof fn lemma_digits_val_extend(s: Seq<char>, a: int, i: int)
    requires
        0 <= a <= i < s.len(),
    ensures
        digits_val(s.subrange(a, i + 1)) == digits_val(s.subrange(a, i)) * 10 + digit_val(s[i]),
{
    assert(s.subrange(a, i + 1).drop_last() =~= s.subrange(a, i));
    assert(s.subrange(a, i + 1).last() == s[i]);
}

/// Extending a digit string with further digits never lowers its value.
pub proof fn lemma_digits_val_mono(s: Seq<char>, a: int, i: int, q: int)
    requires
        0 <= a <= i <= q <= s.len(),
        all_digits(s.subrange(a, i)),
        forall|k: int| i <= k < q ==> is_digit(#[trigger] s[k]),
    ensures
        digits_val(s.subrange(a, q)) >= digits_val(s.subrange(a, i)),
    decreases q - i,
{
    if q > i {
        lemma_digits_val_mono(s, a, i, q - 1);
        lemma_digits_val_extend(s, a, q - 1);
        assert forall|j: int| 0 <= j < s.subrange(a, q - 1).len() implies is_digit(
            #[trigger] s.subrange(a, q - 1)[j],
        ) by {
            assert(s.subrange(a, q - 1)[j] == s[a + j]);
            if a + j < i {
                assert(s.subrange(a, i)[j] == s[a + j]);
            }
        }
        lemma_digits_val_bounds(s.subrange(a, q - 1));
    }
}

/// In a well-formed unsigned numeral, every character away from the
/// decimal point is a digit.
pub proof fn lemma_unsigned_digit_at(s: Seq<char>, i: int)
    requires
        is_unsigned_decimal(s),
        0 <= i < s.len(),
        i != dot_pos(s),
    ensures
        is_digit(s[i]),
{
    let q = dot_pos(s);
    if has_dot(s) {
        assert(0 <= q < s.len() && s[q] == '.');
        if i < q {
            assert(int_digits(s)[i] == s[i]);
        } else {
            assert(frac_digits(s)[i - q - 1] == s[i]);
        }
    } else {
        assert(int_digits(s)[i] == s[i]);
    }
}

/// A position holding the only non-digit, a point, is where the spec-level
/// decimal point sits.
pub proof fn lemma_dot_pos_is(s: Seq<char>, p: int)
    requires
        0 <= p < s.len(),
        s[p] == '.',
        forall|k: int| 0 <= k < s.len() && k != p ==> is_digit(#[trigger] s[k]),
    ensures
        has_dot(s),
        dot_pos(s) == p,
{
    assert(has_dot(s));
    let q = dot_pos(s);
    assert(0 <= q < s.len() && s[q] == '.');
    if q != p {
        assert(is_digit(s[q]));
        assert(('.' as u32) == 46);
        assert(false);
    }
}

/// In a well-formed numeral a non-digit character can only be the point.
pub proof fn lemma_nondigit_is_dot(s: Seq<char>, p: int)
    requires
        is_unsigned_decimal(s),
        0 <= p < s.len(),
        !is_digit(s[p]),
    ensures
        has_dot(s),
        dot_pos(s) == p,
{
    if p != dot_pos(s) {
        lemma_unsigned_digit_at(s, p);
    }
    if !has_dot(s) {
        assert(dot_pos(s) == s.len() as int);
    }
}

/// Ten to a small power, executably.
fn pow10_exec(n: u32) -> (r: i64)
    requires
        n <= FRAC_DIGITS,
    ensures
        r == pow10(n as nat),
        1 <= r <= 1_000_000,
{
    proof {
        reveal_with_fuel(pow10, 7);
    }
    if n == 0 {
        1
    } else if n == 1 {
        10
    } else if n == 2 {
        100
    } else if n == 3 {
        1_000
    } else if n == 4 {
        10_000
    } else if n == 5 {
        100_000
    } else {
        1_000_000
    }
}

/// Position of the first decimal point of `s`, if any.
fn find_dot(s: &str) -> (r: Option<usize>)
    ensures
        r matches Some(p) ==> p < s@.len() && s@[p as int] == '.' && (forall|k: int|
            0 <= k < p ==> s@[k] != '.'),
        r is None ==> forall|k: int| 0 <= k < s@.len() ==> s@[k] != '.',
{
    let n = s.unicode_len();
    let mut i: usize = 0;
    while i < n
        invariant
            i <= n,
            n == s@.len(),
            forall|k: int| 0 <= k < i ==> s@[k] != '.',
        decreases n - i,
    {
        let c = s.get_char(i);
        if c == '.' {
            return Some(i);
        }
        i = i + 1;
    }
    None
}

/// Reads the digit string `s[from..to]` in base ten.
///
/// Returns its value exactly when every character there is a digit and the
/// value does not exceed `limit`.
fn scan_digits(s: &str, from: usize, to: usize, limit: i64) -> (r: Option<i64>)
    requires
        from <= to <= s@.len(),
        limit >= 0,
    ensures
        r is Some <==> (all_digits(s@.subrange(from as int, to as int)) && digits_val(
            s@.subrange(from as int, to as int),
        ) <= limit),
        r matches Some(m) ==> 0 <= m && m == digits_val(s@.subrange(from as int, to as int)),
{
    let mut i: usize = from;
    let mut acc: i64 = 0;
    while i < to
        invariant
            from <= i <= to <= s@.len(),
            limit >= 0,
            all_digits(s@.subrange(from as int, i as int)),
            0 <= acc <= limit,
            acc == digits_val(s@.subrange(from as int, i as int)),
        decreases to - i,
    {
        let c = s.get_char(i);
        let code: u32 = c as u32;
        if code < 48 || code > 57 {
            proof {
                assert(s@.subrange(from as int, to as int)[i - from] == s@[i as int]);
            }
            return None;
        }
        let d: i64 = (code - 48) as i64;
        let next: i128 = acc as i128 * 10 + d as i128;
        if next > limit as i128 {
            proof {
                if all_digits(s@.subrange(from as int, to as int)) {
                    assert forall|k: int| i + 1 <= k < to implies is_digit(#[trigger] s@[k]) by {
                        assert(s@.subrange(from as int, to as int)[k - from] == s@[k]);
                    }
                    lemma_digits_val_extend(s@, from as int, i as int);
                    assert forall|j: int|
                        0 <= j < s@.subrange(from as int, i as int + 1).len() implies is_digit(
                        #[trigger] s@.subrange(from as int, i as int + 1)[j],
                    ) by {
                        assert(s@.subrange(from as int, i as int + 1)[j] == s@[from + j]);
                        if from + j < i {
                            assert(s@.subrange(from as int, i as int)[j] == s@[from + j]);
                        }
                    }
                    lemma_digits_val_mono(s@, from as int, i as int + 1, to as int);
                }
            }
            return None;
        }
        proof {
            lemma_digits_val_extend(s@, from as int, i as int);
            assert forall|j: int|
                0 <= j < s@.subrange(from as int, i as int + 1).len() implies is_digit(
                #[trigger] s@.subrange(from as int, i as int + 1)[j],
            ) by {
                assert(s@.subrange(from as int, i as int + 1)[j] == s@[from + j]);
                if from + j < i {
                    assert(s@.subrange(from as int, i as int)[j] == s@[from + j]);
                }
            }
        }
        acc = next as i64;
        i = i + 1;
    }
    Some(acc)
}

/// Parses an unsigned decimal numeral.
///
/// Succeeds exactly when `s` is a well-formed unsigned numeral whose scaled
/// value fits an `i64` mantissa, and then returns that value.
fn parse_unsigned(s: &str) -> (r: Option<i64>)
    ensures
        r is Some <==> (is_unsigned_decimal(s@) && unsigned_mantissa(s@) <= i64::MAX as int),
        r matches Some(m) ==> 0 <= m && m == unsigned_mantissa(s@),
{
    let n = s.unicode_len();
    let dot = find_dot(s);
    let p: usize = match dot {
        Some(p) => p,
        None => n,
    };
    proof {
        if dot is None {
            assert(!has_dot(s@));
        }
    }
    let fl: usize = if p < n {
        n - p - 1
    } else {
        0
    };
    if fl > 6 {
        proof {
            if is_unsigned_decimal(s@) {
                lemma_nondigit_is_dot(s@, p as int);
            }
        }
        return None;
    }
    if p == 0 && fl == 0 {
        proof {
            if is_unsigned_decimal(s@) {
                if p < n {
                    lemma_nondigit_is_dot(s@, p as int);
                }
            }
        }
        return None;
    }
    let int_part: i64 = match scan_digits(s, 0, p, INT_LIMIT) {
        Some(m) => m,
        None => {
            proof {
                if is_unsigned_decimal(s@) {
                    if p < n {
                        lemma_nondigit_is_dot(s@, p as int);
                    }
                    assert(int_digits(s@) == s@.subrange(0, p as int));
                    lemma_digits_val_bounds(frac_digits(s@));
                    assert(pow10((FRAC_DIGITS - frac_digits(s@).len()) as nat) >= 1) by {
                        reveal_with_fuel(pow10, 7);
                    }
                    assert(digits_val(int_digits(s@)) > INT_LIMIT);
                    assert(digits_val(int_digits(s@)) * SCALE >= (INT_LIMIT + 1) * SCALE);
                    assert(digits_val(frac_digits(s@)) * pow10(
                        (FRAC_DIGITS - frac_digits(s@).len()) as nat,
                    ) >= 0) by {
                        lemma_mul_nonneg_helper(
                            digits_val(frac_digits(s@)),
                            pow10((FRAC_DIGITS - frac_digits(s@).len()) as nat),
                        );
                    }
                }
            }
            return None;
        },
    };
    let frac_part: i64 = if p < n {
        match scan_digits(s, p + 1, n, i64::MAX) {
            Some(m) => m,
            None => {
                proof {
                    if is_unsigned_decimal(s@) {
                        lemma_nondigit_is_dot(s@, p as int);
                        assert(frac_digits(s@) == s@.subrange(p as int + 1, n as int));
                        lemma_digits_val_bounds(frac_digits(s@));
                        assert(pow10(frac_digits(s@).len()) <= 1_000_000) by {
                            reveal_with_fuel(pow10, 7);
                        }
                    }
                }
                return None;
            },
        }
    } else {
        0
    };
    proof {
        if p < n {
            assert forall|k: int| 0 <= k < s@.len() && k != p implies is_digit(
                #[trigger] s@[k],
            ) by {
                if k < p {
                    assert(s@.subrange(0, p as int)[k] == s@[k]);
                } else {
                    assert(s@.subrange(p as int + 1, n as int)[k - p - 1] == s@[k]);
                }
            }
            lemma_dot_pos_is(s@, p as int);
            assert(int_digits(s@) =~= s@.subrange(0, p as int));
            assert(frac_digits(s@) =~= s@.subrange(p as int + 1, n as int));
        } else {
            assert(int_digits(s@) =~= s@);
            assert(s@.subrange(0, p as int) =~= s@);
            assert(frac_digits(s@) =~= Seq::<char>::empty());
        }
        assert(is_unsigned_decimal(s@));
        lemma_digits_val_bounds(frac_digits(s@));
    }
    let scale_up: i64 = pow10_exec((6 - fl) as u32);
    proof {
        assert(pow10(frac_digits(s@).len()) <= 1_000_000) by {
            reveal_with_fuel(pow10, 7);
        }
        lemma_frac_scaled_bound(frac_part as int, scale_up as int, fl as nat);
    }
    let scaled: i64 = frac_part * scale_up;
    let whole: i64 = int_part * SCALE;
    if scaled > i64::MAX - whole {
        return None;
    }
    Some(whole + scaled)
}

/// A fraction of `fl` digits, scaled up to six digits, stays below one
/// million.
proof fn lemma_frac_scaled_bound(v: int, up: int, fl: nat)
    requires
        fl <= 6,
        0 <= v < pow10(fl),
        up == pow10((6 - fl) as nat),
    ensures
        0 <= v * up <= 1_000_000 - up,
        v * up < 1_000_000,
{
    lemma_pow10_pos(fl);
    lemma_pow10_pos((6 - fl) as nat);
    assert(pow10(fl) * pow10((6 - fl) as nat) == pow10(6)) by {
        lemma_pow10_add(fl, (6 - fl) as nat);
    }
    assert(pow10(6) == 1_000_000) by {
        reveal_with_fuel(pow10, 7);
    }
    assert(v * up <= (pow10(fl) - 1) * up) by (nonlinear_arith)
        requires
            v <= pow10(fl) - 1,
            up >= 1,
    ;
    assert((pow10(fl) - 1) * up == pow10(fl) * up - up) by (nonlinear_arith);
    assert(v * up >= 0) by {
        lemma_mul_nonneg_helper(v, up);
    }
}

/// Ten to a power is positive.
proof fn lemma_pow10_pos(n: nat)
    ensures
        pow10(n) >= 1,
    decreases n,
{
    if n > 0 {
        lemma_pow10_pos((n - 1) as nat);
    }
}

/// Powers of ten multiply by adding exponents.
proof fn lemma_pow10_add(a: nat, b: nat)
    ensures
        pow10(a) * pow10(b) == pow10((a + b) as nat),
    decreases a,
{
    if a == 0 {
        assert(pow10(0) == 1);
    } else {
        lemma_pow10_add((a - 1) as nat, b);
        assert(pow10(a) == 10 * pow10((a - 1) as nat));
        assert((10 * pow10((a - 1) as nat)) * pow10(b) == 10 * (pow10((a - 1) as nat) * pow10(b)))
            by (nonlinear_arith);
    }
}

/// A product of nonnegative factors is nonnegative.
proof fn lemma_mul_nonneg_helper(a: int, b: int)
    requires
        0 <= a,
        0 <= b,
    ensures
        0 <= a * b,
{
    assert(0 <= a * b) by (nonlinear_arith)
        requires
            0 <= a,
            0 <= b,
    ;
}

/// Parses a decimal text into a `Decimal`.
///
/// Succeeds exactly when `s` is an optionally signed decimal numeral whose
/// magnitude fits the mantissa range, and then returns its exact scaled
/// value.
pub fn parse_decimal(s: &str) -> (r: Option<Decimal>)
    ensures
        r is Some <==> (is_decimal_text(s@) && decimal_fits(s@)),
        r matches Some(d) ==> d.mantissa == decimal_mantissa(s@),
{
    let n = s.unicode_len();
    if n == 0 {
        proof {
            assert(numeral_of(s@) == s@);
            assert(!has_dot(s@));
            assert(int_digits(s@) =~= s@);
        }
        return None;
    }
    let c0 = s.get_char(0);
    if c0 == '-' {
        let body = s.substring_char(1, n);
        proof {
            assert(body@ == numeral_of(s@));
        }
        match parse_unsigned(body) {
            Some(m) => Some(Decimal { mantissa: -m }),
            None => None,
        }
    } else if c0 == '+' {
        let body = s.substring_char(1, n);
        proof {
            assert(body@ == numeral_of(s@));
        }
        match parse_unsigned(body) {
            Some(m) => Some(Decimal { mantissa: m }),
            None => None,
        }
    } else {
        proof {
            assert(numeral_of(s@) == s@);
        }
        match parse_unsigned(s) {
            Some(m) => Some(Decimal { mantissa: m }),
            None => None,
        }
    }
}

} // verus!
