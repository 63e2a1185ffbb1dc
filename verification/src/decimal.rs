//! Decimal text: what a decimal literal is, what number it denotes in
//! fixed-point nanos, and verified conversions between numbers and text.
//!
//! A decimal literal is an optional sign, then digits with at most one dot
//! and at least one digit: `12`, `-0.01`, `.5`, `5.`. Its value is truncated
//! toward zero past the ninth fractional digit.

use vstd::prelude::*;

verus! {

/// Is `c` a decimal digit?
pub open spec fn is_digit_char(c: char) -> bool {
    48 <= c as int && c as int <= 57
}

/// The numeric value of a digit character.
pub open spec fn digit_value(c: char) -> int {
    c as int - 48
}

/// Are all characters of `s` decimal digits?
pub open spec fn all_digits(s: Seq<char>) -> bool {
    forall|i: int| 0 <= i < s.len() ==> is_digit_char(#[trigger] s[i])
}

/// The number a digit string denotes, most significant digit first; 0 for
/// the empty string.
pub open spec fn digits_value(s: Seq<char>) -> int
    decreases s.len(),
{
    if s.len() == 0 {
        0
    } else {
        digits_value(s.drop_last()) * 10 + digit_value(s.last())
    }
}

/// Ten to the `n`.
pub open spec fn pow10(n: nat) -> int
    decreases n,
{
    if n == 0 {
        1
    } else {
        10 * pow10((n - 1) as nat)
    }
}

/// The digit character for a value below ten.
pub open spec fn digit_char(d: int) -> char {
    ((d + 48) as u8) as char
}

/// The decimal digits of `n`, most significant first, no leading zeros
/// except for `n == 0` itself.
pub open spec fn dec_digits(n: nat) -> Seq<char>
    decreases n,
{
    if n < 10 {
        seq![digit_char(n as int)]
    } else {
        dec_digits(n / 10) + seq![digit_char((n % 10) as int)]
    }
}

/// A digit string's value is nonnegative and below ten to its length.
pub proof fn lemma_digits_value_bounds(s: Seq<char>)
    requires
        all_digits(s),
    ensures
        0 <= digits_value(s) < pow10(s.len()),
    decreases s.len(),
{
    if s.len() > 0 {
        assert(all_digits(s.drop_last()));
        lemma_digits_value_bounds(s.drop_last());
    }
}

/// Ten to the `n` is strictly positive.
pub proof fn lemma_pow10_positive(n: nat)
    ensures
        pow10(n) > 0,
    decreases n,
{
    if n > 0 {
        lemma_pow10_positive((n - 1) as nat);
    }
}

/// Appending a digit multiplies the value by ten and adds the digit.
pub proof fn lemma_digits_value_push(s: Seq<char>, c: char)
    ensures
        digits_value(s.push(c)) == digits_value(s) * 10 + digit_value(c),
{
    assert(s.push(c).drop_last() =~= s);
    assert(s.push(c).last() == c);
}

/// The digit string for a single digit.
fn digit_str(d: u64) -> (r: &'static str)
    requires
        d < 10,
    ensures
        r@ == seq![digit_char(d as int)],
{
    let r: &'static str = match d {
        0 => "0",
        1 => "1",
        2 => "2",
        3 => "3",
        4 => "4",
        5 => "5",
        6 => "6",
        7 => "7",
        8 => "8",
        _ => "9",
    };
    proof {
        reveal_strlit("0");
        reveal_strlit("1");
        reveal_strlit("2");
        reveal_strlit("3");
        reveal_strlit("4");
        reveal_strlit("5");
        reveal_strlit("6");
        reveal_strlit("7");
        reveal_strlit("8");
        reveal_strlit("9");
        assert(r@ =~= seq![digit_char(d as int)]);
    }
    r
}

/// Printing and reading decimal digits round-trip: the digits of `n` are
/// digits, and they denote `n`.
pub proof fn lemma_dec_digits_value(n: nat)
    ensures
        all_digits(dec_digits(n)),
        digits_value(dec_digits(n)) == n,
    decreases n,
{
    if n < 10 {
        assert(digit_char(n as int) as int == n + 48);
        let s = dec_digits(n);
        assert(s =~= seq![digit_char(n as int)]);
        assert(s.drop_last() =~= Seq::empty());
        assert(digits_value(s) == digits_value(s.drop_last()) * 10 + digit_value(s.last()));
        assert(digits_value(s.drop_last()) == 0);
        assert(s.last() == digit_char(n as int));
    } else {
        lemma_dec_digits_value(n / 10);
        let s = dec_digits(n);
        assert(s.drop_last() =~= dec_digits(n / 10));
        assert(s.last() == digit_char((n % 10) as int));
        assert(digit_char((n % 10) as int) as int == n % 10 + 48);
        assert forall|i: int| 0 <= i < s.len() implies is_digit_char(#[trigger] s[i]) by {
            if i < s.len() - 1 {
                assert(s[i] == dec_digits(n / 10)[i]);
            }
        }
    }
}

/// Index of the first dot in `s`, or `s.len()` when there is none.
pub open spec fn dot_index(s: Seq<char>) -> int
    decreases s.len(),
{
    if s.len() == 0 {
        0
    } else if s[0] == '.' {
        0
    } else {
        1 + dot_index(s.drop_first())
    }
}

/// `dot_index` points at the first dot: nothing before it is a dot, and when
/// it lies inside the string it is a dot.
pub proof fn lemma_dot_index(s: Seq<char>)
    ensures
        0 <= dot_index(s) <= s.len(),
        forall|j: int| 0 <= j < dot_index(s) ==> #[trigger] s[j] != '.',
        dot_index(s) < s.len() ==> s[dot_index(s)] == '.',
    decreases s.len(),
{
    if s.len() > 0 && s[0] != '.' {
        lemma_dot_index(s.drop_first());
        assert forall|j: int| 0 <= j < dot_index(s) implies #[trigger] s[j] != '.' by {
            if j > 0 {
                assert(s.drop_first()[j - 1] != '.');
            }
        }
    }
}

/// The digits before the first dot.
pub open spec fn mantissa_int_part(m: Seq<char>) -> Seq<char> {
    m.take(dot_index(m))
}

/// The digits after the first dot; empty when there is no dot.
pub open spec fn mantissa_frac_part(m: Seq<char>) -> Seq<char> {
    if dot_index(m) < m.len() {
        m.skip(dot_index(m) + 1)
    } else {
        Seq::empty()
    }
}

/// An unsigned decimal mantissa: digits with at most one dot and at least
/// one digit.
pub open spec fn is_mantissa(m: Seq<char>) -> bool {
    &&& all_digits(mantissa_int_part(m))
    &&& all_digits(mantissa_frac_part(m))
    &&& mantissa_int_part(m).len() + mantissa_frac_part(m).len() >= 1
}

/// The nanos denoted by a fractional digit string, truncated toward zero
/// past the ninth digit.
pub open spec fn frac_nanos(f: Seq<char>) -> int {
    if f.len() >= 9 {
        digits_value(f.take(9))
    } else {
        digits_value(f) * pow10((9 - f.len()) as nat)
    }
}

/// The nanos denoted by an unsigned mantissa.
pub open spec fn mantissa_nanos(m: Seq<char>) -> int {
    digits_value(mantissa_int_part(m)) * 1_000_000_000 + frac_nanos(mantissa_frac_part(m))
}

/// Does `s` open with an explicit sign?
pub open spec fn has_sign(s: Seq<char>) -> bool {
    s.len() > 0 && (s[0] == '-' || s[0] == '+')
}

/// Does `s` denote a negative number?
pub open spec fn is_negative_literal(s: Seq<char>) -> bool {
    s.len() > 0 && s[0] == '-'
}

/// `s` without its sign, if it has one.
pub open spec fn mantissa_part(s: Seq<char>) -> Seq<char> {
    if has_sign(s) {
        s.drop_first()
    } else {
        s
    }
}

/// A decimal literal: an optional sign, then a mantissa.
pub open spec fn is_decimal_literal(s: Seq<char>) -> bool {
    is_mantissa(mantissa_part(s))
}

/// The nanos a decimal literal denotes.
pub open spec fn literal_nanos(s: Seq<char>) -> int {
    if is_negative_literal(s) {
        -mantissa_nanos(mantissa_part(s))
    } else {
        mantissa_nanos(mantissa_part(s))
    }
}

/// Powers of ten multiply as their exponents add.
pub proof fn lemma_pow10_add(a: nat, b: nat)
    ensures
        pow10(a + b) == pow10(a) * pow10(b),
    decreases a,
{
    if a > 0 {
        lemma_pow10_add((a - 1) as nat, b);
        assert(pow10(a + b) == 10 * pow10((a - 1) as nat + b)) by {
            assert((a + b - 1) as nat == (a - 1) as nat + b);
        }
        assert(10 * (pow10((a - 1) as nat) * pow10(b)) == (10 * pow10((a - 1) as nat)) * pow10(
            b,
        )) by (nonlinear_arith);
    }
}

/// Ten to the `e`, executable for the small exponents the fixed point needs.
fn pow10_u64(e: u64) -> (r: u64)
    requires
        e <= 9,
    ensures
        r as int == pow10(e as nat),
{
    proof {
        reveal_with_fuel(pow10, 11);
    }
    match e {
        0 => 1,
        1 => 10,
        2 => 100,
        3 => 1_000,
        4 => 10_000,
        5 => 100_000,
        6 => 1_000_000,
        7 => 10_000_000,
        8 => 100_000_000,
        _ => 1_000_000_000,
    }
}

/// Powers of ten grow with the exponent.
pub proof fn lemma_pow10_mono(a: nat, b: nat)
    requires
        a <= b,
    ensures
        pow10(a) <= pow10(b),
    decreases b,
{
    if a < b {
        lemma_pow10_mono(a, (b - 1) as nat);
        lemma_pow10_positive((b - 1) as nat);
    }
}

/// A value below `p`, scaled by a positive `q`, stays below `p * q`.
proof fn lemma_scale_below(x: int, p: int, q: int)
    requires
        0 <= x < p,
        q >= 1,
    ensures
        0 <= x * q <= p * q - q,
{
    assert(0 <= x * q <= p * q - q) by (nonlinear_arith)
        requires
            0 <= x,
            x <= p - 1,
            q >= 1;
}

/// A well-formed mantissa denotes a nonnegative number of nanos.
pub proof fn lemma_mantissa_nonneg(m: Seq<char>)
    requires
        is_mantissa(m),
    ensures
        mantissa_nanos(m) >= 0,
{
    lemma_digits_value_bounds(mantissa_int_part(m));
    let f = mantissa_frac_part(m);
    if f.len() >= 9 {
        assert(all_digits(f.take(9))) by {
            assert forall|t: int| 0 <= t < f.take(9).len() implies is_digit_char(
                #[trigger] f.take(9)[t],
            ) by {
                assert(f.take(9)[t] == f[t]);
            }
        }
        lemma_digits_value_bounds(f.take(9));
    } else {
        lemma_digits_value_bounds(f);
        lemma_pow10_positive((9 - f.len()) as nat);
        lemma_scale_below(digits_value(f), pow10(f.len()), pow10((9 - f.len()) as nat));
    }
}

/// A string's text could not be read as a fixed-point number.
#[derive(Clone, Copy, PartialEq, Eq, Structural, Debug)]
pub enum ParseRealError {
    /// The text is not a decimal literal.
    Malformed,
    /// The literal's magnitude exceeds the representable range.
    OutOfRange,
}

/// Read a decimal literal as fixed-point nanos.
///
/// Exactly the decimal literals are accepted; a literal whose magnitude does
/// not fit the fixed-point range is out of range.
#[verifier::loop_isolation(false)]
#[verifier::rlimit(60)]
pub fn parse_nanos(s: &str) -> (r: Result<i64, ParseRealError>)
    ensures
        !is_decimal_literal(s@) ==> r == Err::<i64, ParseRealError>(ParseRealError::Malformed),
        is_decimal_literal(s@) && mantissa_nanos(mantissa_part(s@)) > i64::MAX ==> r == Err::<
            i64,
            ParseRealError,
        >(ParseRealError::OutOfRange),
        is_decimal_literal(s@) && mantissa_nanos(mantissa_part(s@)) <= i64::MAX ==> (r matches Ok(
            v,
        ) && v == literal_nanos(s@)),
{
    let ghost whole = s@;
    let n = s.unicode_len();
    let mut start: usize = 0;
    let mut neg = false;
    if n > 0 {
        let c0 = s.get_char(0);
        if c0 == '-' {
            neg = true;
            start = 1;
        } else if c0 == '+' {
            start = 1;
        }
    }
    let ghost m = whole.skip(start as int);
    proof {
        assert(m =~= mantissa_part(whole));
        assert(neg == is_negative_literal(whole));
    }

    // locate the first dot of the mantissa
    let mut dot = n;
    let mut j = start;
    while j < n
        invariant
            start <= j <= n,
            n == whole.len(),
            start <= n || start == j,
            m == whole.skip(start as int),
            dot == n || (start <= dot < j && whole[dot as int] == '.'),
            forall|k: int| start <= k < j && k < dot ==> #[trigger] whole[k] != '.',
        decreases n - j,
    {
        if dot == n && s.get_char(j) == '.' {
            dot = j;
        }
        j += 1;
    }
    let ghost d = dot - start as int;
    proof {
        lemma_dot_index(m);
        assert forall|t: int| 0 <= t < m.len() implies #[trigger] m[t] == whole[start + t] by {}
        if dot_index(m) < d {
            assert(m[dot_index(m)] == '.');
            assert(whole[start + dot_index(m)] != '.');
        }
        if dot_index(m) > d {
            assert(d < m.len());
            assert(m[d] == '.');
        }
        assert(dot_index(m) == d);
    }
    let ghost ipart = mantissa_int_part(m);
    let ghost f = mantissa_frac_part(m);
    proof {
        assert(ipart.len() == d);
        if d < m.len() {
            assert(f =~= whole.skip(dot as int + 1));
        }
        assert(f.len() == if dot < n {
            n - dot - 1
        } else {
            0
        });
    }

    // integer part: validate digits and accumulate, capped where the value
    // can no longer fit
    let mut ip: u64 = 0;
    let mut too_big = false;
    let mut k = start;
    while k < dot
        invariant
            start <= k <= dot <= n,
            n == whole.len(),
            m == whole.skip(start as int),
            ipart == mantissa_int_part(m),
            dot_index(m) == dot - start as int,
            ipart == m.take(dot - start as int),
            forall|t: int| start <= t < k ==> is_digit_char(#[trigger] whole[t]),
            !too_big ==> ip as int == digits_value(m.take(k - start as int)) && ip
                <= 9_223_372_036u64,
            too_big ==> digits_value(m.take(k - start as int)) > 9_223_372_036,
        decreases dot - k,
    {
        let c = s.get_char(k);
        let cv = c as u32;
        if !(48 <= cv && cv <= 57) {
            proof {
                assert(c == whole[k as int]);
                assert(!is_digit_char(whole[k as int]));
                assert(ipart[k - start as int] == m[k - start as int]);
                assert(m[k - start as int] == whole[k as int]);
                assert(!all_digits(ipart));
            }
            return Err(ParseRealError::Malformed);
        }
        let dv = (cv - 48) as u64;
        proof {
            assert(m.take(k + 1 - start as int) =~= m.take(k - start as int).push(
                whole[k as int],
            ));
            lemma_digits_value_push(m.take(k - start as int), whole[k as int]);
            if too_big {
                lemma_digits_value_bounds(m.take(k - start as int));
            }
        }
        if !too_big {
            let next = ip * 10 + dv;
            ip = next;
            if ip > 9_223_372_036 {
                too_big = true;
            }
        }
        k += 1;
    }
    proof {
        assert(m.take(dot - start as int) == ipart);
        assert(all_digits(ipart)) by {
            assert forall|t: int| 0 <= t < ipart.len() implies is_digit_char(
                #[trigger] ipart[t],
            ) by {
                assert(ipart[t] == whole[start + t]);
            }
        }
    }

    // fractional part: validate digits, accumulate the first nine
    let mut fd: u64 = 0;
    let mut fcount: u64 = 0;
    let mut k2: usize = if dot < n {
        dot + 1
    } else {
        n
    };
    while k2 < n
        invariant
            dot < n ==> dot + 1 <= k2 <= n,
            dot >= n ==> k2 == n,
            dot <= n,
            n == whole.len(),
            m == whole.skip(start as int),
            start <= dot,
            f == mantissa_frac_part(m),
            dot < n ==> f =~= whole.skip(dot as int + 1),
            dot < n ==> f.len() == n - dot - 1,
            forall|t: int| dot < t < k2 ==> is_digit_char(#[trigger] whole[t]),
            dot < n ==> fcount == if k2 - dot - 1 <= 9 {
                (k2 - dot - 1) as int
            } else {
                9
            },
            dot >= n ==> fcount == 0,
            fcount <= 9,
            fd as int == digits_value(f.take(fcount as int)),
            fd < pow10(fcount as nat),
        decreases n - k2,
    {
        let c = s.get_char(k2);
        let cv = c as u32;
        if !(48 <= cv && cv <= 57) {
            proof {
                assert(c == whole[k2 as int]);
                assert(!is_digit_char(whole[k2 as int]));
                assert(f[k2 - dot - 1] == whole[k2 as int]);
                assert(!all_digits(f));
            }
            return Err(ParseRealError::Malformed);
        }
        let dv = (cv - 48) as u64;
        if fcount < 9 {
            proof {
                assert(f[fcount as int] == whole[k2 as int]);
                assert(f.take(fcount as int + 1) =~= f.take(fcount as int).push(
                    whole[k2 as int],
                ));
                lemma_digits_value_push(f.take(fcount as int), whole[k2 as int]);
                assert(pow10(fcount as nat + 1) == 10 * pow10(fcount as nat));
                lemma_pow10_mono(fcount as nat, 8);
                reveal_with_fuel(pow10, 11);
            }
            fd = fd * 10 + dv;
            fcount = fcount + 1;
        }
        k2 += 1;
    }
    proof {
        assert(all_digits(f)) by {
            assert forall|t: int| 0 <= t < f.len() implies is_digit_char(#[trigger] f[t]) by {
                assert(f[t] == whole[dot + 1 + t]);
            }
        }
    }

    // at least one digit somewhere
    let ilen = dot - start;
    let flen = if dot < n {
        n - dot - 1
    } else {
        0
    };
    if ilen == 0 && flen == 0 {
        return Err(ParseRealError::Malformed);
    }
    proof {
        assert(is_mantissa(m));
        assert(is_decimal_literal(whole));
    }

    // the value, in nanos
    if too_big {
        proof {
            if f.len() >= 9 {
                lemma_digits_value_bounds(f.take(9));
            } else {
                lemma_digits_value_bounds(f);
                lemma_pow10_positive((9 - f.len()) as nat);
                lemma_scale_below(digits_value(f), pow10(f.len()), pow10((9 - f.len()) as nat));
            }
            assert(frac_nanos(f) >= 0);
            assert(digits_value(ipart) > 9_223_372_036);
            assert(mantissa_nanos(m) > i64::MAX);
        }
        return Err(ParseRealError::OutOfRange);
    }
    let fracval: u64 = if fcount == 9 {
        fd
    } else {
        let mult = pow10_u64(9 - fcount);
        proof {
            assert(f.take(fcount as int) =~= f);
            lemma_pow10_positive((9 - fcount) as nat);
            lemma_pow10_add(fcount as nat, (9 - fcount) as nat);
            reveal_with_fuel(pow10, 11);
            lemma_scale_below(fd as int, pow10(fcount as nat), mult as int);
        }
        fd * mult
    };
    proof {
        assert(fracval as int == frac_nanos(f));
        assert(fracval < 1_000_000_000) by {
            if f.len() >= 9 {
                lemma_digits_value_bounds(f.take(9));
                reveal_with_fuel(pow10, 11);
            }
        }
    }
    let total = ip * 1_000_000_000 + fracval;
    proof {
        assert(total as int == mantissa_nanos(m));
    }
    if total > 9_223_372_036_854_775_807u64 {
        return Err(ParseRealError::OutOfRange);
    }
    let v = total as i64;
    if neg {
        Ok(-v)
    } else {
        Ok(v)
    }
}

/// Render a number in decimal.
pub fn u64_to_dec(n: u64) -> (s: String)
    ensures
        s@ == dec_digits(n as nat),
    decreases n,
{
    if n < 10 {
        let mut s = String::new();
        s.append(digit_str(n));
        proof {
            assert(s@ =~= dec_digits(n as nat));
        }
        s
    } else {
        let mut s = u64_to_dec(n / 10);
        s.append(digit_str(n % 10));
        proof {
            assert(s@ =~= dec_digits(n as nat));
        }
        s
    }
}

} // verus!
