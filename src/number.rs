//! Decimal numbers as they appear in a data file.
//!
//! A value is held as a whole number of units, one unit being `1 / SCALE`:
//! `1.5` is `1_500_000_000` units. A field is a number when it is an optional
//! sign, then decimal digits with at most one point among them, at least one
//! digit, and at most `FRACTION_DIGITS` digits after the point.

use vstd::prelude::*;

verus! {

/// Digits kept after the decimal point.
pub const FRACTION_DIGITS: usize = 9;

/// Units in one whole: ten to the power `FRACTION_DIGITS`.
pub const SCALE: u128 = 1_000_000_000;

/// The largest magnitude a value may have, in units.
pub const MAX_UNITS: u128 = 170141183460469231731687303715884105727;

pub open spec fn is_digit(b: u8) -> bool {
    48 <= b && b <= 57
}

pub open spec fn all_digits(s: Seq<u8>) -> bool {
    forall|i: int| 0 <= i < s.len() ==> is_digit(#[trigger] s[i])
}

/// The value of a run of decimal digits, most significant first.
pub open spec fn digits_value(s: Seq<u8>) -> nat
    decreases s.len(),
{
    if s.len() == 0 {
        0
    } else {
        digits_value(s.drop_last()) * 10 + (s.last() - 48) as nat
    }
}

pub open spec fn pow10(n: nat) -> nat
    decreases n,
{
    if n == 0 {
        1
    } else {
        10 * pow10((n - 1) as nat)
    }
}

/// How many digits `s` starts with.
pub open spec fn leading_digits(s: Seq<u8>) -> nat
    decreases s.len(),
{
    if s.len() > 0 && is_digit(s[0]) {
        1 + leading_digits(s.skip(1))
    } else {
        0
    }
}

/// The magnitude, in units, of an unsigned decimal: digits, then optionally a
/// point and more digits.
pub open spec fn magnitude_of(s: Seq<u8>) -> Option<nat> {
    let k = leading_digits(s);
    let whole = s.take(k as int);
    let rest = s.skip(k as int);
    if rest.len() == 0 {
        if k == 0 {
            None
        } else {
            Some(digits_value(whole) * (SCALE as nat))
        }
    } else if rest[0] == 46 {
        let frac = rest.skip(1);
        if all_digits(frac) && frac.len() <= FRACTION_DIGITS as nat && k + frac.len() >= 1 {
            Some(
                digits_value(whole) * (SCALE as nat) + digits_value(frac) * pow10(
                    (FRACTION_DIGITS - frac.len()) as nat,
                ),
            )
        } else {
            None
        }
    } else {
        None
    }
}

/// The value, in units, of a field holding a signed decimal; `None` when the
/// field is not such a number or its magnitude exceeds `MAX_UNITS`.
pub open spec fn decimal_units(s: Seq<u8>) -> Option<int> {
    let negative = s.len() > 0 && s[0] == 45;
    let signed = s.len() > 0 && (s[0] == 45 || s[0] == 43);
    let body = if signed {
        s.skip(1)
    } else {
        s
    };
    match magnitude_of(body) {
        Some(m) => if m <= MAX_UNITS as nat {
            if negative {
                Some(-m)
            } else {
                Some(m as int)
            }
        } else {
            None
        },
        None => None,
    }
}


/// `Some` of a machine integer, seen as a mathematical integer.
pub open spec fn units_view(r: Option<i128>) -> Option<int> {
    match r {
        Some(v) => Some(v as int),
        None => None,
    }
}

proof fn lemma_digits_step(s: Seq<u8>, from: int, i: int)
    requires
        0 <= from <= i < s.len(),
    ensures
        digits_value(s.subrange(from, i + 1)) == digits_value(s.subrange(from, i)) * 10 + (s[i]
            - 48) as nat,
{
    assert(s.subrange(from, i + 1).drop_last() =~= s.subrange(from, i));
}

proof fn lemma_digits_below_pow10(s: Seq<u8>)
    requires
        all_digits(s),
    ensures
        digits_value(s) < pow10(s.len()),
    decreases s.len(),
{
    if s.len() > 0 {
        let t = s.drop_last();
        assert(all_digits(t)) by {
            assert forall|i: int| 0 <= i < t.len() implies is_digit(#[trigger] t[i]) by {
                assert(t[i] == s[i]);
            }
        }
        lemma_digits_below_pow10(t);
        assert(is_digit(s[s.len() - 1]));
        let a = digits_value(t);
        let p = pow10(t.len());
        let d = (s.last() - 48) as nat;
        assert(a * 10 + d < p * 10) by (nonlinear_arith)
            requires
                a < p,
                d <= 9,
        ;
    }
}

proof fn lemma_pow10_add(a: nat, b: nat)
    ensures
        pow10(a + b) == pow10(a) * pow10(b),
    decreases a,
{
    if a > 0 {
        lemma_pow10_add((a - 1) as nat, b);
        assert(((a + b) - 1) as nat == ((a - 1) as nat + b) as nat);
        assert(pow10(a + b) == 10 * pow10(((a - 1) as nat + b) as nat));
        assert(pow10(a) == 10 * pow10((a - 1) as nat));
        assert(10 * (pow10((a - 1) as nat) * pow10(b)) == (10 * pow10((a - 1) as nat)) * pow10(
            b,
        )) by (nonlinear_arith);
    } else {
        assert(pow10(0) == 1);
        assert(a + b == b);
    }
}

proof fn lemma_pow10_le_nine(n: nat)
    requires
        n <= 9,
    ensures
        1 <= pow10(n) <= 1_000_000_000,
        n < 9 ==> pow10(n) <= 100_000_000,
{
    reveal_with_fuel(pow10, 10);
}

/// Ten to the power `n`, for the few powers a fraction needs.
fn pow10_small(n: usize) -> (r: u128)
    requires
        n <= FRACTION_DIGITS,
    ensures
        r == pow10(n as nat),
{
    let mut r: u128 = 1;
    let mut j: usize = 0;
    while j < n
        invariant
            j <= n <= FRACTION_DIGITS,
            r == pow10(j as nat),
        decreases n - j,
    {
        proof {
            lemma_pow10_le_nine(j as nat);
        }
        r = r * 10;
        j = j + 1;
    }
    r
}

/// Scans the run of digits that starts at `from`: returns where it ends and
/// its value, or `None` for the value when that exceeds `MAX_UNITS`.
pub(crate) fn scan_digits(s: &Vec<u8>, from: usize) -> (r: (usize, Option<u128>))
    requires
        from <= s@.len(),
    ensures
        from <= r.0 <= s@.len(),
        all_digits(s@.subrange(from as int, r.0 as int)),
        r.0 == s@.len() || !is_digit(s@[r.0 as int]),
        match r.1 {
            Some(v) => v == digits_value(s@.subrange(from as int, r.0 as int)),
            None => digits_value(s@.subrange(from as int, r.0 as int)) > MAX_UNITS,
        },
{
    let mut i: usize = from;
    let mut acc: u128 = 0;
    let mut over: bool = false;
    while i < s.len() && 48 <= s[i] && s[i] <= 57
        invariant
            from <= i <= s@.len(),
            all_digits(s@.subrange(from as int, i as int)),
            !over ==> acc == digits_value(s@.subrange(from as int, i as int)),
            over ==> digits_value(s@.subrange(from as int, i as int)) > MAX_UNITS,
        decreases s@.len() - i,
    {
        let d = (s[i] - 48) as u128;
        proof {
            lemma_digits_step(s@, from as int, i as int);
            let sub = s@.subrange(from as int, i as int + 1);
            assert forall|j: int| 0 <= j < sub.len() implies is_digit(#[trigger] sub[j]) by {
                if j < i - from {
                    assert(sub[j] == s@.subrange(from as int, i as int)[j]);
                }
            }
        }
        if !over {
            if acc > (MAX_UNITS - d) / 10 {
                over = true;
            } else {
                acc = acc * 10 + d;
            }
        }
        i = i + 1;
    }
    if over {
        (i, None)
    } else {
        (i, Some(acc))
    }
}


proof fn lemma_leading_digits(t: Seq<u8>, k: int)
    requires
        0 <= k <= t.len(),
        all_digits(t.take(k)),
        k == t.len() || !is_digit(t[k]),
    ensures
        leading_digits(t) == k,
    decreases k,
{
    if k > 0 {
        assert(t.take(k)[0] == t[0]);
        let u = t.skip(1);
        assert forall|j: int| 0 <= j < k - 1 implies is_digit(#[trigger] u.take(k - 1)[j]) by {
            assert(u.take(k - 1)[j] == t.take(k)[j + 1]);
        }
        if k < t.len() {
            assert(u[k - 1] == t[k]);
        }
        lemma_leading_digits(u, k - 1);
    }
}

/// Reads a field as a signed decimal, in units.
pub fn parse_decimal(s: &Vec<u8>) -> (r: Option<i128>)
    ensures
        units_view(r) == decimal_units(s@),
{
    let n = s.len();
    let negative = n > 0 && s[0] == 45;
    let start: usize = if n > 0 && (s[0] == 45 || s[0] == 43) {
        1
    } else {
        0
    };
    let ghost body = if start == 1 {
        s@.skip(1)
    } else {
        s@
    };
    assert(body =~= s@.subrange(start as int, n as int));
    let (e, whole) = scan_digits(s, start);
    let ghost k = (e - start) as int;
    proof {
        assert(body.take(k) =~= s@.subrange(start as int, e as int));
        if e < n {
            assert(body[k] == s@[e as int]);
        }
        lemma_leading_digits(body, k);
        assert(body.skip(k) =~= s@.subrange(e as int, n as int));
    }
    let magnitude: Option<u128> = if e == n {
        if e == start {
            None
        } else {
            match whole {
                None => {
                    proof {
                        let w = digits_value(body.take(k));
                        assert(w * (SCALE as nat) >= w) by (nonlinear_arith);
                    }
                    None
                },
                Some(w) => {
                    if w > MAX_UNITS / SCALE {
                        proof {
                            assert(w * SCALE > MAX_UNITS) by (nonlinear_arith)
                                requires
                                    w > MAX_UNITS / SCALE,
                            ;
                        }
                        None
                    } else {
                        proof {
                            assert(w * SCALE <= MAX_UNITS) by (nonlinear_arith)
                                requires
                                    w <= MAX_UNITS / SCALE,
                            ;
                        }
                        Some(w * SCALE)
                    }
                },
            }
        }
    } else if s[e] == 46 {
        let (f, frac) = scan_digits(s, e + 1);
        let ghost rest = body.skip(k);
        proof {
            assert(rest.skip(1) =~= s@.subrange(e + 1, n as int));
        }
        if f != n || f - (e + 1) > FRACTION_DIGITS || (e == start && f == e + 1) {
            proof {
                if f != n {
                    let fr = rest.skip(1);
                    assert(fr[f - e - 1] == s@[f as int]);
                }
            }
            None
        } else {
            let flen = f - (e + 1);
            let ghost fr = s@.subrange(e + 1, n as int);
            proof {
                lemma_digits_below_pow10(fr);
                lemma_pow10_le_nine(flen as nat);
                lemma_pow10_le_nine((FRACTION_DIGITS - flen) as nat);
                lemma_pow10_add(flen as nat, (FRACTION_DIGITS - flen) as nat);
                assert(flen as nat + (FRACTION_DIGITS - flen) as nat == FRACTION_DIGITS as nat);
                assert(fr.len() == flen);
            }
            let fv = match frac {
                Some(v) => v,
                None => 0,
            };
            let p = pow10_small(FRACTION_DIGITS - flen);
            proof {
                lemma_pow10_le_nine(FRACTION_DIGITS as nat);
                assert(fv * p < 1_000_000_000) by (nonlinear_arith)
                    requires
                        fv < pow10(flen as nat),
                        p == pow10((FRACTION_DIGITS - flen) as nat),
                        pow10(flen as nat) * p == pow10(FRACTION_DIGITS as nat),
                        pow10(FRACTION_DIGITS as nat) <= 1_000_000_000,
                ;
            }
            let fu = fv * p;
            match whole {
                None => {
                    proof {
                        let w = digits_value(body.take(k));
                        assert(w * (SCALE as nat) + (fu as nat) >= w) by (nonlinear_arith);
                    }
                    None
                },
                Some(w) => {
                    if w > (MAX_UNITS - fu) / SCALE {
                        proof {
                            assert(w * SCALE + fu > MAX_UNITS) by (nonlinear_arith)
                                requires
                                    w > (MAX_UNITS - fu) / (SCALE as int),
                                    fu <= MAX_UNITS,
                            ;
                        }
                        None
                    } else {
                        proof {
                            assert(w * SCALE + fu <= MAX_UNITS) by (nonlinear_arith)
                                requires
                                    w <= (MAX_UNITS - fu) / (SCALE as int),
                                    fu <= MAX_UNITS,
                            ;
                        }
                        Some(w * SCALE + fu)
                    }
                },
            }
        }
    } else {
        None
    };
    match magnitude {
        None => None,
        Some(m) => {
            if negative {
                Some(-(m as i128))
            } else {
                Some(m as i128)
            }
        },
    }
}


/// A field's value, when it has one, lies within the range of `i128`.
pub proof fn lemma_decimal_range(s: Seq<u8>)
    ensures
        decimal_units(s) matches Some(v) ==> -(MAX_UNITS as int) <= v <= MAX_UNITS,
{
}

} // verus!
