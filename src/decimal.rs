//! Decimal text such as `"43210.57"` read as fixed-point units.
use vstd::prelude::*;
use vstd::string::*;
use crate::SCALE;

verus! {

pub open spec fn is_digit(c: char) -> bool {
    '0' <= c && c <= '9'
}

pub open spec fn digit_value(c: char) -> nat {
    (c as u32 - '0' as u32) as nat
}

pub open spec fn all_digits(s: Seq<char>) -> bool {
    forall|i: int| 0 <= i < s.len() ==> is_digit(#[trigger] s[i])
}

/// The number that the decimal digits `s` spell.
pub open spec fn digits_value(s: Seq<char>) -> nat
    decreases s.len(),
{
    if s.len() == 0 {
        0
    } else {
        digits_value(s.drop_last()) * 10 + digit_value(s.last())
    }
}

pub open spec fn pow10(n: nat) -> nat
    decreases n,
{
    if n == 0 { 1 } else { 10 * pow10((n - 1) as nat) }
}

/// Number of fraction digits that fixed-point units hold.
pub const FRACTION_DIGITS: usize = 8;

/// The fraction digits `f` in fixed-point units; digits past the eighth are
/// dropped.
pub open spec fn fraction_units(f: Seq<char>) -> nat {
    if f.len() >= FRACTION_DIGITS {
        digits_value(f.take(FRACTION_DIGITS as int))
    } else {
        digits_value(f) * pow10((FRACTION_DIGITS - f.len()) as nat)
    }
}

/// `s` splits at a `'.'` at `k` into a non-empty digit run and a digit run.
pub open spec fn dot_at(s: Seq<char>, k: int) -> bool {
    &&& 0 < k < s.len()
    &&& s[k] == '.'
    &&& all_digits(s.take(k))
    &&& all_digits(s.skip(k + 1))
}

pub open spec fn fits(v: int) -> Option<u64> {
    if 0 <= v <= u64::MAX { Some(v as u64) } else { None }
}

/// Fixed-point units of `s` when it reads `D+` or `D+.D*`, and the value fits
/// in a `u64`.
pub open spec fn fixed_of(s: Seq<char>) -> Option<u64> {
    if s.len() > 0 && all_digits(s) {
        fits(digits_value(s) * SCALE)
    } else if exists|k: int| dot_at(s, k) {
        let k = choose|k: int| dot_at(s, k);
        fits(digits_value(s.take(k)) * SCALE + fraction_units(s.skip(k + 1)))
    } else {
        None
    }
}

proof fn lemma_prefix_not_larger(s: Seq<char>, i: int)
    requires
        0 <= i <= s.len(),
    ensures
        digits_value(s.take(i)) <= digits_value(s),
    decreases s.len(),
{
    if i < s.len() {
        assert(s.drop_last().take(i) =~= s.take(i));
        lemma_prefix_not_larger(s.drop_last(), i);
    } else {
        assert(s.take(i) =~= s);
    }
}

/// Reads the digits `s[from..to]`; `None` when one is not a digit or the
/// number exceeds `u64::MAX`.
fn read_digits(s: &str, from: usize, to: usize) -> (r: Option<u64>)
    requires
        from <= to <= s@.len(),
    ensures
        r is Some <==> all_digits(s@.subrange(from as int, to as int))
            && digits_value(s@.subrange(from as int, to as int)) <= u64::MAX,
        r matches Some(v) ==> v == digits_value(s@.subrange(from as int, to as int)),
{
    let ghost t = s@.subrange(from as int, to as int);
    let mut v: u64 = 0;
    let mut i: usize = from;
    while i < to
        invariant
            from <= i <= to <= s@.len(),
            t == s@.subrange(from as int, to as int),
            all_digits(t.take(i - from)),
            v == digits_value(t.take(i - from)),
        decreases to - i,
    {
        let c = s.get_char(i);
        let ghost pre = t.take(i - from);
        proof {
            assert(t.take(i + 1 - from).drop_last() =~= pre);
        }
        if !('0' <= c && c <= '9') {
            proof {
                assert(!is_digit(t[i - from]));
            }
            return None;
        }
        let d = (c as u32 - '0' as u32) as u64;
        if v > (u64::MAX - d) / 10 {
            proof {
                assert(digits_value(t.take(i + 1 - from)) > u64::MAX);
                lemma_prefix_not_larger(t, i + 1 - from);
            }
            return None;
        }
        v = v * 10 + d;
        i = i + 1;
        proof {
            assert forall|j: int| 0 <= j < t.take(i - from).len() implies
                is_digit(#[trigger] t.take(i - from)[j]) by {
                if j < pre.len() {
                    assert(t.take(i - from)[j] == pre[j]);
                }
            }
        }
    }
    proof {
        assert(t.take(to - from) =~= t);
    }
    Some(v)
}

/// Whether `s[from..to]` is all digits.
fn digit_run(s: &str, from: usize, to: usize) -> (r: bool)
    requires
        from <= to <= s@.len(),
    ensures
        r == all_digits(s@.subrange(from as int, to as int)),
{
    let mut i: usize = from;
    while i < to
        invariant
            from <= i <= to <= s@.len(),
            forall|j: int| from <= j < i ==> is_digit(#[trigger] s@[j]),
        decreases to - i,
    {
        let c = s.get_char(i);
        if !('0' <= c && c <= '9') {
            assert(!is_digit(s@.subrange(from as int, to as int)[i - from]));
            return false;
        }
        i = i + 1;
    }
    assert forall|j: int| 0 <= j < to - from implies
        is_digit(#[trigger] s@.subrange(from as int, to as int)[j]) by {
        assert(s@.subrange(from as int, to as int)[j] == s@[from + j]);
    }
    true
}

proof fn lemma_pow10_positive(n: nat)
    ensures
        pow10(n) >= 1,
    decreases n,
{
    if n > 0 {
        lemma_pow10_positive((n - 1) as nat);
    }
}

fn pow10_of(n: usize) -> (r: u64)
    requires
        n <= FRACTION_DIGITS,
    ensures
        r == pow10(n as nat),
        r <= 100_000_000,
{
    let mut r: u64 = 1;
    let mut i: usize = 0;
    proof {
        reveal_with_fuel(pow10, 9);
    }
    while i < n
        invariant
            i <= n <= FRACTION_DIGITS,
            r == pow10(i as nat),
            pow10(i as nat) * pow10((FRACTION_DIGITS - i) as nat) == 100_000_000,
        decreases n - i,
    {
        proof {
            lemma_pow10_positive((FRACTION_DIGITS - i - 1) as nat);
            assert(pow10((i + 1) as nat) == 10 * pow10(i as nat));
            assert(pow10((FRACTION_DIGITS - i) as nat) == 10 * pow10((FRACTION_DIGITS - i - 1) as nat));
            assert(pow10((i + 1) as nat) * pow10((FRACTION_DIGITS - i - 1) as nat) == 100_000_000)
                by (nonlinear_arith)
                requires
                    pow10((i + 1) as nat) == 10 * pow10(i as nat),
                    pow10((FRACTION_DIGITS - i) as nat) == 10 * pow10((FRACTION_DIGITS - i - 1) as nat),
                    pow10(i as nat) * pow10((FRACTION_DIGITS - i) as nat) == 100_000_000;
            assert(r * 10 <= 100_000_000) by (nonlinear_arith)
                requires
                    r == pow10(i as nat),
                    pow10((i + 1) as nat) == 10 * pow10(i as nat),
                    pow10((i + 1) as nat) * pow10((FRACTION_DIGITS - i - 1) as nat) == 100_000_000,
                    pow10((FRACTION_DIGITS - i - 1) as nat) >= 1;
        }
        r = r * 10;
        i = i + 1;
    }
    proof {
        assert(pow10(i as nat) * pow10((FRACTION_DIGITS - i) as nat) == 100_000_000);
        lemma_pow10_positive((FRACTION_DIGITS - i) as nat);
        assert(r <= 100_000_000) by (nonlinear_arith)
            requires
                r * pow10((FRACTION_DIGITS - i) as nat) == 100_000_000,
                pow10((FRACTION_DIGITS - i) as nat) >= 1;
    }
    r
}

/// Reads decimal text `D+` or `D+.D*` as fixed-point units, dropping fraction
/// digits past the eighth; `None` for any other text or a value beyond `u64`.
pub fn parse_fixed(s: &str) -> (r: Option<u64>)
    ensures
        r == fixed_of(s@),
{
    let n = s.unicode_len();
    let mut k: usize = 0;
    while k < n && s.get_char(k) != '.'
        invariant
            k <= n == s@.len(),
            forall|j: int| 0 <= j < k ==> s@[j] != '.',
        decreases n - k,
    {
        k = k + 1;
    }
    if k == n {
        proof {
            assert forall|m: int| !dot_at(s@, m) by {
                if 0 < m < s@.len() {
                    assert(s@[m] != '.');
                }
            }
            assert(s@.subrange(0, n as int) =~= s@);
        }
        if n == 0 {
            return None;
        }
        return match read_digits(s, 0, n) {
            Some(a) => {
                let v: u128 = a as u128 * SCALE as u128;
                if v <= u64::MAX as u128 { Some(v as u64) } else { None }
            },
            None => {
                proof {
                    if all_digits(s@) {
                        assert(digits_value(s@) * SCALE > u64::MAX) by (nonlinear_arith)
                            requires digits_value(s@) > u64::MAX;
                    }
                }
                None
            },
        };
    }
    proof {
        assert(!is_digit(s@[k as int]));
        assert(!all_digits(s@));
        assert forall|m: int| #[trigger] dot_at(s@, m) implies m == k by {
            if m < k {
                assert(s@[m] != '.');
            } else if m > k {
                assert(s@.take(m)[k as int] == s@[k as int]);
            }
        }
    }
    if k == 0 {
        proof {
            assert forall|m: int| !dot_at(s@, m) by {
                if dot_at(s@, m) {
                    assert(m == 0);
                }
            }
        }
        return None;
    }
    proof {
        assert(s@.subrange(0, k as int) =~= s@.take(k as int));
        assert(s@.subrange(k + 1, n as int) =~= s@.skip(k + 1));
    }
    let a = match read_digits(s, 0, k) {
        Some(a) => a,
        None => {
            proof {
                if dot_at(s@, k as int) {
                    assert(digits_value(s@.take(k as int)) * SCALE > u64::MAX) by (nonlinear_arith)
                        requires digits_value(s@.take(k as int)) > u64::MAX;
                }
            }
            return None;
        },
    };
    if !digit_run(s, k + 1, n) {
        proof {
            assert(!dot_at(s@, k as int));
        }
        return None;
    }
    let ghost f = s@.skip(k + 1);
    let flen = n - (k + 1);
    let units: u64 = if flen >= FRACTION_DIGITS {
        proof {
            assert(s@.subrange(k + 1, k + 1 + FRACTION_DIGITS) =~= f.take(FRACTION_DIGITS as int));
            assert(all_digits(f.take(FRACTION_DIGITS as int)));
        }
        match read_digits(s, k + 1, k + 1 + FRACTION_DIGITS) {
            Some(d) => d,
            None => {
                proof {
                    lemma_prefix_not_larger(f, FRACTION_DIGITS as int);
                    lemma_digits_below_pow10(f.take(FRACTION_DIGITS as int));
                    reveal_with_fuel(pow10, 9);
                }
                return None;
            },
        }
    } else {
        match read_digits(s, k + 1, n) {
            Some(d) => {
                let p = pow10_of(FRACTION_DIGITS - flen);
                proof {
                    lemma_digits_below_pow10(f);
                    lemma_pow10_split(flen as nat, (FRACTION_DIGITS - flen) as nat);
                    reveal_with_fuel(pow10, 9);
                    assert(d * p <= 100_000_000) by (nonlinear_arith)
                        requires
                            d < pow10(flen as nat),
                            p == pow10((FRACTION_DIGITS - flen) as nat),
                            pow10(flen as nat) * p == 100_000_000;
                }
                d * p
            },
            None => {
                proof {
                    lemma_digits_below_pow10(f);
                    lemma_pow10_split(flen as nat, (FRACTION_DIGITS - flen) as nat);
                    reveal_with_fuel(pow10, 9);
                    lemma_pow10_positive((FRACTION_DIGITS - flen) as nat);
                    assert(pow10(flen as nat) <= 100_000_000) by (nonlinear_arith)
                        requires
                            pow10(flen as nat) * pow10((FRACTION_DIGITS - flen) as nat) == 100_000_000,
                            pow10((FRACTION_DIGITS - flen) as nat) >= 1;
                }
                return None;
            },
        }
    };
    proof {
        assert(dot_at(s@, k as int));
        let m = choose|m: int| dot_at(s@, m);
        assert(m == k);
        assert(units == fraction_units(f));
    }
    let v: u128 = a as u128 * SCALE as u128 + units as u128;
    if v <= u64::MAX as u128 { Some(v as u64) } else { None }
}

proof fn lemma_digits_below_pow10(s: Seq<char>)
    requires
        all_digits(s),
    ensures
        digits_value(s) < pow10(s.len()),
    decreases s.len(),
{
    if s.len() > 0 {
        assert(all_digits(s.drop_last()));
        lemma_digits_below_pow10(s.drop_last());
        assert(is_digit(s[s.len() - 1]));
        assert(digits_value(s) < pow10(s.len())) by (nonlinear_arith)
            requires
                digits_value(s) == digits_value(s.drop_last()) * 10 + digit_value(s.last()),
                digits_value(s.drop_last()) < pow10(s.drop_last().len()),
                digit_value(s.last()) <= 9,
                pow10(s.len()) == 10 * pow10(s.drop_last().len());
    }
}

proof fn lemma_pow10_split(a: nat, b: nat)
    ensures
        pow10(a) * pow10(b) == pow10(a + b),
    decreases a,
{
    if a > 0 {
        let a1 = (a - 1) as nat;
        lemma_pow10_split(a1, b);
        assert((a1 + b) as nat == (a + b - 1) as nat);
        assert(pow10(a + b) == 10 * pow10((a1 + b) as nat));
        assert(pow10(a) == 10 * pow10(a1));
        assert(pow10(a) * pow10(b) == 10 * (pow10(a1) * pow10(b))) by (nonlinear_arith)
            requires pow10(a) == 10 * pow10(a1);
        assert(pow10(a1) * pow10(b) == pow10((a1 + b) as nat));
        assert(pow10(a) * pow10(b) == pow10(a + b));
    } else {
        assert(pow10(a) == 1);
        assert(a + b == b);
    }
}

} // verus!
