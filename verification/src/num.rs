//! Unsigned numerals: decimal and octal digit strings, as the `size`,
//! `unix.owner`, `unix.group` and `unix.mode` facts carry them.

use vstd::prelude::*;
use vstd::arithmetic::mul::lemma_mul_inequality;
use crate::chars::spec_digit_val;

verus! {

/// `base` to the power `exp`.
pub open spec fn spec_pow(base: int, exp: nat) -> int
    decreases exp,
{
    if exp == 0 {
        1
    } else {
        base * spec_pow(base, (exp - 1) as nat)
    }
}

/// True when `c` is a digit of the given base (used with bases 8 and 10).
pub open spec fn spec_is_base_digit(c: char, base: int) -> bool {
    48 <= c as int && (c as int) < 48 + base
}

/// Value of a digit string read in the given base.
pub open spec fn spec_base_val(s: Seq<char>, base: int) -> int
    decreases s.len(),
{
    if s.len() == 0 {
        0
    } else {
        spec_base_val(s.drop_last(), base) * base + spec_digit_val(s.last())
    }
}

/// The digit part of an unsigned numeral: an optional leading `'+'` is
/// dropped, as Rust's unsigned `parse` and `from_str_radix` drop it.
pub open spec fn spec_digits_part(s: Seq<char>) -> Seq<char> {
    if s.len() > 0 && s[0] == '+' {
        s.drop_first()
    } else {
        s
    }
}

/// Whether `s` is a well-formed unsigned numeral in the given base: at
/// least one digit after the optional sign, and nothing else.
pub open spec fn spec_uint_ok(s: Seq<char>, base: int) -> bool {
    let d = spec_digits_part(s);
    d.len() > 0 && (forall|i: int| 0 <= i < d.len() ==> spec_is_base_digit(#[trigger] d[i], base))
}

/// The value of an unsigned numeral (meaningful when `spec_uint_ok`).
pub open spec fn spec_uint_val(s: Seq<char>, base: int) -> int {
    spec_base_val(spec_digits_part(s), base)
}

/// A digit string's value is never negative.
pub proof fn lemma_base_val_nonneg(s: Seq<char>, base: int)
    requires
        base >= 1,
        forall|i: int| 0 <= i < s.len() ==> spec_is_base_digit(#[trigger] s[i], base),
    ensures
        spec_base_val(s, base) >= 0,
    decreases s.len(),
{
    if s.len() > 0 {
        lemma_base_val_nonneg(s.drop_last(), base);
        lemma_mul_inequality(0, spec_base_val(s.drop_last(), base), base);
    }
}

/// Reading one more digit multiplies the prefix value by the base.
pub proof fn lemma_base_val_step(s: Seq<char>, i: int, base: int)
    requires
        0 <= i < s.len(),
    ensures
        spec_base_val(s.subrange(0, i + 1), base) == spec_base_val(s.subrange(0, i), base) * base
            + spec_digit_val(s[i]),
{
    let t = s.subrange(0, i + 1);
    assert(t.drop_last() =~= s.subrange(0, i));
    assert(t.last() == s[i]);
}

/// A digit string's value is below `base` to the power of its length.
pub proof fn lemma_base_val_upper(s: Seq<char>, base: int)
    requires
        base >= 2,
        forall|i: int| 0 <= i < s.len() ==> spec_is_base_digit(#[trigger] s[i], base),
    ensures
        spec_base_val(s, base) < spec_pow(base, s.len()),
    decreases s.len(),
{
    if s.len() == 0 {
        assert(spec_pow(base, 0) == 1);
    } else {
        let t = s.drop_last();
        lemma_base_val_upper(t, base);
        lemma_base_val_nonneg(t, base);
        lemma_mul_inequality(spec_base_val(t, base), spec_pow(base, t.len()) - 1, base);
        assert((spec_pow(base, t.len()) - 1) * base == spec_pow(base, t.len()) * base - base)
            by (nonlinear_arith);
        assert(spec_pow(base, t.len()) * base == spec_pow(base, s.len())) by {
            assert(spec_pow(base, s.len()) == base * spec_pow(base, (s.len() - 1) as nat));
            lemma_mul_is_commutative(spec_pow(base, t.len()), base);
        }
    }
}

/// A prefix of a digit string never has a larger value than the whole.
pub proof fn lemma_base_val_prefix_le(s: Seq<char>, j: int, base: int)
    requires
        base >= 1,
        0 <= j <= s.len(),
        forall|i: int| 0 <= i < s.len() ==> spec_is_base_digit(#[trigger] s[i], base),
    ensures
        spec_base_val(s.subrange(0, j), base) <= spec_base_val(s, base),
    decreases s.len(),
{
    if j == s.len() {
        assert(s.subrange(0, j) =~= s);
    } else {
        let t = s.drop_last();
        assert(forall|i: int| 0 <= i < t.len() ==> spec_is_base_digit(#[trigger] t[i], base));
        lemma_base_val_prefix_le(t, j, base);
        assert(t.subrange(0, j) =~= s.subrange(0, j));
        lemma_base_val_nonneg(t, base);
        lemma_mul_inequality(1, base, spec_base_val(t, base));
        lemma_mul_is_commutative(spec_base_val(t, base), base);
    }
}

proof fn lemma_mul_is_commutative(a: int, b: int)
    ensures
        a * b == b * a,
{
}

/// Parses the unsigned numeral standing at `s[from..to]` in the given
/// base, failing on anything malformed and on any value above `max`,
/// as Rust's `parse::<uN>` and `uN::from_str_radix` fail there.
pub fn parse_uint(s: &str, from: usize, to: usize, base: u64, max: u64) -> (r: Option<u64>)
    requires
        from <= to <= s@.len(),
        base == 8 || base == 10,
        max >= 9,
    ensures
        ({
            let part = s@.subrange(from as int, to as int);
            match r {
                Some(v) => spec_uint_ok(part, base as int) && v == spec_uint_val(part, base as int)
                    && v <= max,
                None => !(spec_uint_ok(part, base as int) && spec_uint_val(part, base as int)
                    <= max),
            }
        }),
{
    let ghost part = s@.subrange(from as int, to as int);
    let mut i = from;
    if i < to && s.get_char(i) == '+' {
        i = i + 1;
        assert(part[0] == '+');
    } else {
        assert(!(part.len() > 0 && part[0] == '+'));
    }
    let ghost digits = spec_digits_part(part);
    proof {
        assert(digits =~= s@.subrange(i as int, to as int));
    }
    if i == to {
        // no digits at all
        return None;
    }
    let mut acc: u64 = 0;
    let mut k = i;
    while k < to
        invariant
            from <= i <= k <= to <= s@.len(),
            part == s@.subrange(from as int, to as int),
            digits == spec_digits_part(part),
            digits =~= s@.subrange(i as int, to as int),
            forall|j: int| 0 <= j < k - i ==> spec_is_base_digit(#[trigger] digits[j], base as int),
            acc == spec_base_val(digits.subrange(0, k - i), base as int),
            acc <= max,
            base == 8 || base == 10,
            max >= 9,
        decreases to - k,
    {
        let c = s.get_char(k);
        let u = c as u32;
        if !(48 <= u && u < (48 + base as u32)) {
            proof {
                assert(spec_digits_part(part)[k - i] == c);
                assert(c as int == u as int);
                assert(!spec_is_base_digit(spec_digits_part(part)[k - i], base as int));
                if spec_uint_ok(part, base as int) {
                    assert(spec_is_base_digit(spec_digits_part(part)[k - i], base as int));
                }
            }
            return None;
        }
        let d: u64 = (u - 48) as u64;
        proof {
            assert((acc as int) * (base as int) + (d as int) <= 0xffff_ffff_ffff_ffffu64 * 10 + 9)
                by (nonlinear_arith)
                requires
                    acc <= 0xffff_ffff_ffff_ffffu64,
                    0 <= d <= 9,
                    0 < base <= 10,
            ;
        }
        let wide: u128 = (acc as u128) * (base as u128) + (d as u128);
        proof {
            lemma_base_val_step(digits, k - i, base as int);
        }
        if wide > max as u128 {
            proof {
                assert(spec_base_val(digits.subrange(0, k - i + 1), base as int) > max);
                if spec_uint_ok(part, base as int) {
                    assert(digits == spec_digits_part(part));
                    assert(forall|j: int| 0 <= j < digits.len()
                        ==> spec_is_base_digit(#[trigger] digits[j], base as int));
                    lemma_base_val_prefix_le(digits, k - i + 1, base as int);
                }
            }
            return None;
        }
        acc = wide as u64;
        k = k + 1;
    }
    proof {
        assert(digits.subrange(0, (k - i) as int) =~= digits);
    }
    Some(acc)
}

} // verus!
