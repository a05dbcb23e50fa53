//! The timestamp decoder: fixed-width `YYYYMMDDHHMMSS` or
//! `YYYYMMDDHHMMSS.mmm` strings, as the MLST `modify` and `create`
//! facts carry them.

use vstd::prelude::*;
use crate::chars::spec_is_digit;
use crate::num::{spec_base_val, spec_pow, lemma_base_val_upper, lemma_base_val_step,
    lemma_base_val_nonneg, spec_is_base_digit};

verus! {

/// A calendar date with a time of day, to millisecond precision. No
/// timezone is attached; the caller decides what the wall time means.
#[derive(Debug, Clone, Copy, PartialEq, Eq, Structural)]
pub struct MlstDateTime {
    pub year: i32,
    pub month: u8,
    pub day: u8,
    pub hour: u8,
    pub minute: u8,
    pub second: u8,
    pub millisecond: u16,
}

/// Leap years of the proleptic Gregorian calendar.
pub open spec fn spec_leap_year(y: int) -> bool {
    (y % 4 == 0 && y % 100 != 0) || y % 400 == 0
}

/// Days in the given month of the given year.
pub open spec fn spec_days_in_month(y: int, m: int) -> int {
    if m == 2 {
        if spec_leap_year(y) {
            29
        } else {
            28
        }
    } else if m == 4 || m == 6 || m == 9 || m == 11 {
        30
    } else {
        31
    }
}

impl MlstDateTime {
    /// A well-formed four-digit-year calendar datetime; everything the
    /// timestamp decoder returns satisfies this.
    pub open spec fn spec_valid(self) -> bool {
        &&& 0 <= self.year <= 9999
        &&& 1 <= self.month <= 12
        &&& 1 <= self.day <= spec_days_in_month(self.year as int, self.month as int)
        &&& self.hour <= 23
        &&& self.minute <= 59
        &&& self.second <= 59
        &&& self.millisecond <= 999
    }

    /// The Unix epoch, 1970-01-01 00:00:00.000.
    pub fn epoch() -> (r: MlstDateTime)
        ensures
            r == spec_epoch(),
    {
        MlstDateTime { year: 1970, month: 1, day: 1, hour: 0, minute: 0, second: 0, millisecond: 0 }
    }
}

/// The Unix epoch, 1970-01-01 00:00:00.000.
pub open spec fn spec_epoch() -> MlstDateTime {
    MlstDateTime { year: 1970, month: 1, day: 1, hour: 0, minute: 0, second: 0, millisecond: 0 }
}

/// Days in the given month of the given year.
pub fn days_in_month(y: i32, m: u8) -> (r: u8)
    requires
        0 <= y,
        1 <= m <= 12,
    ensures
        r == spec_days_in_month(y as int, m as int),
{
    if m == 2 {
        if (y % 4 == 0 && y % 100 != 0) || y % 400 == 0 {
            29
        } else {
            28
        }
    } else if m == 4 || m == 6 || m == 9 || m == 11 {
        30
    } else {
        31
    }
}

/// The two accepted shapes: 14 digits, or 14 digits, a dot, and 3 digits.
pub open spec fn spec_date_shape(s: Seq<char>) -> bool {
    ||| (s.len() == 14 && (forall|i: int| 0 <= i < 14 ==> spec_is_digit(#[trigger] s[i])))
    ||| (s.len() == 18 && s[14] == '.' && (forall|i: int|
        0 <= i < 18 && i != 14 ==> spec_is_digit(#[trigger] s[i])))
}

/// The decimal value of the digits at the given fixed offsets.
pub open spec fn spec_date_field(s: Seq<char>, from: int, to: int) -> int {
    spec_base_val(s.subrange(from, to), 10)
}

/// The datetime read off a well-shaped timestamp string.
pub open spec fn spec_date_of(s: Seq<char>) -> MlstDateTime {
    MlstDateTime {
        year: spec_date_field(s, 0, 4) as i32,
        month: spec_date_field(s, 4, 6) as u8,
        day: spec_date_field(s, 6, 8) as u8,
        hour: spec_date_field(s, 8, 10) as u8,
        minute: spec_date_field(s, 10, 12) as u8,
        second: spec_date_field(s, 12, 14) as u8,
        millisecond: if s.len() == 18 {
            spec_date_field(s, 15, 18) as u16
        } else {
            0
        },
    }
}

/// What the timestamp decoder returns: the fields read off the fixed
/// offsets when the shape and the calendar values are right, and
/// nothing otherwise.
pub open spec fn spec_parse_mlst_date(s: Seq<char>) -> Option<MlstDateTime> {
    if spec_date_shape(s) && spec_date_of(s).spec_valid() {
        Some(spec_date_of(s))
    } else {
        None
    }
}

/// The decimal value of a short all-digit run inside `s`.
fn digits_value(s: &str, from: usize, to: usize) -> (r: u64)
    requires
        from <= to <= s@.len(),
        to - from <= 4,
        forall|i: int| from <= i < to ==> spec_is_digit(#[trigger] s@[i]),
    ensures
        r == spec_date_field(s@, from as int, to as int),
        r <= 9999,
        to - from <= 2 ==> r <= 99,
        to - from <= 3 ==> r <= 999,
{
    let ghost part = s@.subrange(from as int, to as int);
    proof {
        assert(forall|i: int| 0 <= i < part.len() ==> spec_is_base_digit(#[trigger] part[i], 10));
        lemma_base_val_upper(part, 10);
        lemma_base_val_nonneg(part, 10);
    }
    let mut acc: u64 = 0;
    let mut k = from;
    while k < to
        invariant
            from <= k <= to <= s@.len(),
            to - from <= 4,
            part =~= s@.subrange(from as int, to as int),
            forall|i: int| from <= i < to ==> spec_is_digit(#[trigger] s@[i]),
            acc == spec_base_val(part.subrange(0, k - from), 10),
            acc < spec_pow(10, (k - from) as nat),
        decreases to - k,
    {
        let c = s.get_char(k);
        let d = (c as u32 - 48) as u64;
        proof {
            lemma_base_val_step(part, k - from, 10);
            assert(spec_pow(10, 4nat) == 10000) by {
                assert(spec_pow(10, 0nat) == 1);
                assert(spec_pow(10, 1nat) == 10);
                assert(spec_pow(10, 2nat) == 100);
                assert(spec_pow(10, 3nat) == 1000);
            }
            assert(spec_pow(10, (k - from) as nat) <= 1000) by {
                assert(spec_pow(10, 0nat) == 1);
                assert(spec_pow(10, 1nat) == 10);
                assert(spec_pow(10, 2nat) == 100);
                assert(spec_pow(10, 3nat) == 1000);
            }
        }
        acc = acc * 10 + d;
        k = k + 1;
    }
    proof {
        assert(part.subrange(0, (k - from) as int) =~= part);
        assert(spec_pow(10, 0nat) == 1);
        assert(spec_pow(10, 1nat) == 10);
        assert(spec_pow(10, 2nat) == 100);
        assert(spec_pow(10, 3nat) == 1000);
        assert(spec_pow(10, 4nat) == 10000);
    }
    acc
}

/// Decodes an MLST timestamp. Exactly the 14- and 18-character all-digit
/// shapes (with the dot at offset 14) are accepted, and only when the
/// calendar fields they carry are valid; everything else yields nothing.
pub fn parse_mlst_date(s: &str) -> (r: Option<MlstDateTime>)
    ensures
        r == spec_parse_mlst_date(s@),
{
    let n = s.unicode_len();
    let has_ms: bool;
    if n == 14 {
        has_ms = false;
    } else if n == 18 {
        has_ms = true;
    } else {
        return None;
    }
    let mut i: usize = 0;
    while i < n
        invariant
            i <= n == s@.len(),
            n == 14 || n == 18,
            has_ms == (n == 18),
            forall|j: int| 0 <= j < i && !(has_ms && j == 14) ==> spec_is_digit(#[trigger] s@[j]),
            has_ms && i > 14 ==> s@[14] == '.',
        decreases n - i,
    {
        let c = s.get_char(i);
        if has_ms && i == 14 {
            if c != '.' {
                return None;
            }
        } else {
            let u = c as u32;
            if !(48 <= u && u <= 57) {
                return None;
            }
        }
        i = i + 1;
    }
    assert(spec_date_shape(s@));
    let year = digits_value(s, 0, 4) as i32;
    let month = digits_value(s, 4, 6) as u8;
    let day = digits_value(s, 6, 8) as u8;
    let hour = digits_value(s, 8, 10) as u8;
    let minute = digits_value(s, 10, 12) as u8;
    let second = digits_value(s, 12, 14) as u8;
    let millisecond: u16 = if has_ms {
        digits_value(s, 15, 18) as u16
    } else {
        0
    };
    let dt = MlstDateTime { year, month, day, hour, minute, second, millisecond };
    assert(dt == spec_date_of(s@));
    if month < 1 || month > 12 {
        return None;
    }
    if day < 1 || day > days_in_month(year, month) {
        return None;
    }
    if hour > 23 || minute > 59 || second > 59 || millisecond > 999 {
        return None;
    }
    Some(dt)
}

} // verus!
